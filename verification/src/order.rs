//! JavaScript's string order, as the user interface sorts source applications.

use crate::text::{
    js_less, lemma_units_less_asymmetric, lemma_units_less_irreflexive, lemma_units_less_total,
    lemma_utf16_units_injective, units_compare, utf16_units, utf16_units_of,
};
use std::cmp::Ordering;
use vstd::prelude::*;

verus! {

/// Compares two strings by their UTF-16 code units, as JavaScript does.
pub fn javascript_string_cmp(left: &str, right: &str) -> (o: Ordering)
    ensures
        (o == Ordering::Less) == js_less(left@, right@),
        (o == Ordering::Equal) == (left@ == right@),
        (o == Ordering::Greater) == js_less(right@, left@),
{
    let l = utf16_units_of(left);
    let r = utf16_units_of(right);
    let (less, equal) = units_compare(&l, &r);
    proof {
        if equal {
            lemma_utf16_units_injective(left@, right@);
        }
        lemma_units_less_irreflexive(l@);
        lemma_units_less_asymmetric(l@, r@);
        if !equal {
            lemma_units_less_total(l@, r@);
        }
    }
    if less {
        Ordering::Less
    } else if equal {
        Ordering::Equal
    } else {
        Ordering::Greater
    }
}

} // verus!
