//! Standard padded base64 (RFC 4648, `+` and `/`, `=` padding), as the
//! `base64` crate's `STANDARD` engine writes and strictly reads it: the
//! encoding as a spec function, and the facts about it that callers use.

use crate::external::{base64_error_text, standard_decode, standard_encode};
use vstd::prelude::*;
use vstd::utf8::is_ascii_chars;

verus! {

/// The character of a six-bit value in the standard alphabet.
pub open spec fn base64_char(v: int) -> char {
    if v < 26 {
        (65 + v) as char
    } else if v < 52 {
        (71 + v) as char
    } else if v < 62 {
        (v - 4) as char
    } else if v == 62 {
        '+'
    } else {
        '/'
    }
}

/// The padded standard base64 text of some bytes: each group of three bytes
/// becomes four characters; a last group of two or one bytes becomes three or
/// two characters followed by one or two `=`.
pub open spec fn base64_encoding(bytes: Seq<u8>) -> Seq<char>
    decreases bytes.len(),
{
    if bytes.len() == 0 {
        Seq::empty()
    } else if bytes.len() == 1 {
        let a = bytes[0] as int;
        seq![base64_char(a / 4), base64_char((a % 4) * 16), '=', '=']
    } else if bytes.len() == 2 {
        let a = bytes[0] as int;
        let b = bytes[1] as int;
        seq![base64_char(a / 4), base64_char((a % 4) * 16 + b / 16), base64_char((b % 16) * 4), '=']
    } else {
        let a = bytes[0] as int;
        let b = bytes[1] as int;
        let c = bytes[2] as int;
        seq![
            base64_char(a / 4),
            base64_char((a % 4) * 16 + b / 16),
            base64_char((b % 16) * 4 + c / 64),
            base64_char(c % 64),
        ] + base64_encoding(bytes.skip(3))
    }
}

/// The length of the padded base64 encoding of `n` bytes.
pub open spec fn base64_encoded_len(n: nat) -> nat {
    (n / 3) * 4 + if n % 3 == 0 {
        0nat
    } else {
        4nat
    }
}

/// What `STANDARD.decode` gives for a text: the bytes whose encoding it is
/// (it accepts nothing else), or the crate's error message.
pub open spec fn base64_decode_result(text: Seq<char>) -> Result<Seq<u8>, Seq<char>> {
    if exists|b: Seq<u8>| base64_encoding(b) == text {
        Ok(choose|b: Seq<u8>| base64_encoding(b) == text)
    } else {
        Err(base64_error_text(text))
    }
}

/// The bytes `STANDARD.decode` gives for the text, `None` when it is rejected.
pub open spec fn base64_decoding(text: Seq<char>) -> Option<Seq<u8>> {
    match base64_decode_result(text) {
        Ok(bytes) => Some(bytes),
        Err(_) => None,
    }
}

proof fn lemma_char_in_alphabet(v: int)
    requires
        0 <= v < 64,
    ensures
        base64_char(v) != '=',
        '\0' <= base64_char(v) <= '\u{7f}',
        forall|w: int| 0 <= w < 64 && base64_char(w) == base64_char(v) ==> w == v,
{
}

/// The encoding has the padded length `4 * ceil(n / 3)` and is ASCII.
pub proof fn lemma_encoding_shape(bytes: Seq<u8>)
    ensures
        base64_encoding(bytes).len() == base64_encoded_len(bytes.len()),
        is_ascii_chars(base64_encoding(bytes)),
    decreases bytes.len(),
{
    if bytes.len() >= 3 {
        let a = bytes[0] as int;
        let b = bytes[1] as int;
        let c = bytes[2] as int;
        lemma_char_in_alphabet(a / 4);
        lemma_char_in_alphabet((a % 4) * 16 + b / 16);
        lemma_char_in_alphabet((b % 16) * 4 + c / 64);
        lemma_char_in_alphabet(c % 64);
        lemma_encoding_shape(bytes.skip(3));
        let e = base64_encoding(bytes);
        let head = seq![
            base64_char(a / 4),
            base64_char((a % 4) * 16 + b / 16),
            base64_char((b % 16) * 4 + c / 64),
            base64_char(c % 64),
        ];
        assert(e == head + base64_encoding(bytes.skip(3)));
        assert forall|i| 0 <= i < e.len() implies '\0' <= #[trigger] e[i] <= '\u{7f}' by {
            if i >= 4 {
                assert(e[i] == base64_encoding(bytes.skip(3))[i - 4]);
            }
        }
    } else if bytes.len() == 2 {
        let a = bytes[0] as int;
        let b = bytes[1] as int;
        lemma_char_in_alphabet(a / 4);
        lemma_char_in_alphabet((a % 4) * 16 + b / 16);
        lemma_char_in_alphabet((b % 16) * 4);
    } else if bytes.len() == 1 {
        let a = bytes[0] as int;
        lemma_char_in_alphabet(a / 4);
        lemma_char_in_alphabet((a % 4) * 16);
    }
}

proof fn lemma_group_injective(a1: u8, b1: u8, c1: u8, a2: u8, b2: u8, c2: u8)
    requires
        a1 / 4 == a2 / 4,
        (a1 % 4) * 16 + b1 / 16 == (a2 % 4) * 16 + b2 / 16,
        (b1 % 16) * 4 + c1 / 64 == (b2 % 16) * 4 + c2 / 64,
        c1 % 64 == c2 % 64,
    ensures
        a1 == a2 && b1 == b2 && c1 == c2,
{
    assert(a1 % 4 == a2 % 4 && b1 / 16 == b2 / 16) by (nonlinear_arith)
        requires
            (a1 % 4) * 16 + b1 / 16 == (a2 % 4) * 16 + b2 / 16,
            0 <= b1 / 16 < 16,
            0 <= b2 / 16 < 16,
            0 <= a1 % 4 < 4,
            0 <= a2 % 4 < 4,
    ;
    assert(b1 % 16 == b2 % 16 && c1 / 64 == c2 / 64) by (nonlinear_arith)
        requires
            (b1 % 16) * 4 + c1 / 64 == (b2 % 16) * 4 + c2 / 64,
            0 <= c1 / 64 < 4,
            0 <= c2 / 64 < 4,
            0 <= b1 % 16 < 16,
            0 <= b2 % 16 < 16,
    ;
}

/// Different bytes have different encodings.
pub proof fn lemma_encoding_injective(b1: Seq<u8>, b2: Seq<u8>)
    requires
        base64_encoding(b1) == base64_encoding(b2),
    ensures
        b1 == b2,
    decreases b1.len(),
{
    lemma_encoding_shape(b1);
    lemma_encoding_shape(b2);
    let e = base64_encoding(b1);
    if b1.len() == 0 || b2.len() == 0 {
        assert(b1 =~= b2);
        return;
    }
    let a1 = b1[0] as int;
    let a2 = b2[0] as int;
    lemma_char_in_alphabet(a1 / 4);
    lemma_char_in_alphabet(a2 / 4);
    if b1.len() >= 3 && b2.len() >= 3 {
        let (x1, y1, z1) = (b1[1] as int, b1[2] as int, 0int);
        let (x2, y2) = (b2[1] as int, b2[2] as int);
        lemma_char_in_alphabet((a1 % 4) * 16 + x1 / 16);
        lemma_char_in_alphabet((a2 % 4) * 16 + x2 / 16);
        lemma_char_in_alphabet((x1 % 16) * 4 + y1 / 64);
        lemma_char_in_alphabet((x2 % 16) * 4 + y2 / 64);
        lemma_char_in_alphabet(y1 % 64);
        lemma_char_in_alphabet(y2 % 64);
        assert(e[0] == base64_encoding(b2)[0]);
        assert(e[1] == base64_encoding(b2)[1]);
        assert(e[2] == base64_encoding(b2)[2]);
        assert(e[3] == base64_encoding(b2)[3]);
        lemma_group_injective(b1[0], b1[1], b1[2], b2[0], b2[1], b2[2]);
        assert(base64_encoding(b1.skip(3)) =~= e.skip(4));
        assert(base64_encoding(b2.skip(3)) =~= base64_encoding(b2).skip(4));
        lemma_encoding_injective(b1.skip(3), b2.skip(3));
        assert(b1 =~= b1.take(3) + b1.skip(3));
        assert(b2 =~= b2.take(3) + b2.skip(3));
        assert(b1.take(3) =~= b2.take(3));
    } else if b1.len() >= 3 || b2.len() >= 3 {
        // The lengths agree, so one side has exactly three bytes and no `=`;
        // the other has one or two and ends in `=`.
        let (long, short) = if b1.len() >= 3 {
            (b1, b2)
        } else {
            (b2, b1)
        };
        assert(long.len() == 3);
        let c = long[2] as int;
        lemma_char_in_alphabet(c % 64);
        assert(base64_encoding(long.skip(3)) =~= Seq::<char>::empty());
        assert(base64_encoding(long)[3] == base64_char(c % 64));
        assert(base64_encoding(short)[3] == '=');
    } else if b1.len() == 2 && b2.len() == 2 {
        let x1 = b1[1] as int;
        let x2 = b2[1] as int;
        lemma_char_in_alphabet((a1 % 4) * 16 + x1 / 16);
        lemma_char_in_alphabet((a2 % 4) * 16 + x2 / 16);
        lemma_char_in_alphabet((x1 % 16) * 4);
        lemma_char_in_alphabet((x2 % 16) * 4);
        assert(e[0] == base64_encoding(b2)[0]);
        assert(e[1] == base64_encoding(b2)[1]);
        assert(e[2] == base64_encoding(b2)[2]);
        lemma_group_injective(b1[0], b1[1], 0, b2[0], b2[1], 0);
        assert(b1 =~= b2);
    } else if b1.len() == 1 && b2.len() == 1 {
        lemma_char_in_alphabet((a1 % 4) * 16);
        lemma_char_in_alphabet((a2 % 4) * 16);
        assert(e[0] == base64_encoding(b2)[0]);
        assert(e[1] == base64_encoding(b2)[1]);
        lemma_group_injective(b1[0], 0, 0, b2[0], 0, 0);
        assert(b1 =~= b2);
    } else {
        // One byte against two: the third character is `=` on one side only.
        let (two, one) = if b1.len() == 2 {
            (b1, b2)
        } else {
            (b2, b1)
        };
        let x = two[1] as int;
        lemma_char_in_alphabet((x % 16) * 4);
        assert(base64_encoding(two)[2] == base64_char((x % 16) * 4));
        assert(base64_encoding(one)[2] == '=');
    }
}

/// Decoding an encoding gives the bytes back.
pub proof fn lemma_decode_encoding(bytes: Seq<u8>)
    ensures
        base64_decode_result(base64_encoding(bytes)) == Ok::<Seq<u8>, Seq<char>>(bytes),
        base64_decoding(base64_encoding(bytes)) == Some(bytes),
{
    let text = base64_encoding(bytes);
    assert(exists|b: Seq<u8>| base64_encoding(b) == text);
    let chosen = choose|b: Seq<u8>| base64_encoding(b) == text;
    lemma_encoding_injective(chosen, bytes);
}

/// `STANDARD.encode`, with the facts of the encoding that callers use.
pub fn base64_encode(bytes: &[u8]) -> (out: String)
    requires
        bytes@.len() <= usize::MAX / 2,
    ensures
        out@ == base64_encoding(bytes@),
        out@.len() == base64_encoded_len(bytes@.len()),
        is_ascii_chars(out@),
        base64_decoding(out@) == Some(bytes@),
{
    let out = standard_encode(bytes);
    proof {
        lemma_encoding_shape(bytes@);
        lemma_decode_encoding(bytes@);
    }
    out
}

/// `STANDARD.decode`: the bytes a text is the encoding of, or the crate's
/// error message (see [`base64_decode_result`]).
pub fn base64_decode(text: &str) -> (out: Result<Vec<u8>, String>)
    ensures
        out is Ok <==> base64_decoding(text@) is Some,
        out matches Ok(bytes) ==> base64_decode_result(text@) matches Ok(b) && b == bytes@,
        out matches Err(e) ==> base64_decode_result(text@) matches Err(m) && m == e@,
        out matches Ok(bytes) ==> bytes@.len() <= usize::MAX / 2,
{
    let out = standard_decode(text);
    proof {
        if out is Ok {
            lemma_decode_encoding(out->Ok_0@);
        }
    }
    out
}

} // verus!
