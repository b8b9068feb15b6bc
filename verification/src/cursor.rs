//! Paging cursors: base64 of `"<copied_at millis>\n<id>"`.

use crate::encoding::{
    base64_decode, base64_decoding, base64_encode, base64_encoded_len, base64_encoding,
};
use crate::external::{
    format_utc_millis, four_digit_year_millis, parse_rfc3339_millis, rfc3339_millis,
    str_byte_len, string_from_utf8, utc_millis_text,
};
use crate::ids::{cursor_safe_id, history_id_is_cursor_safe, lemma_ascii_utf16_len};
use crate::item::{find_char, index_of};
use crate::numbers::{
    i64_text, int_text, is_digit, pow10, lemma_nat_text_len, lemma_nat_text_value, lemma_parse_int_text,
    nat_text, parse_i64, parse_i64_text,
};
use crate::text::{chars_eq, chars_of, string_from_chars, utf16_len_at_most};
use crate::types::HistoryItem;
use vstd::prelude::*;
use vstd::string::*;
use vstd::utf8::{decode_utf8, encode_utf8, encode_utf8_decode_utf8, encode_utf8_valid_utf8, valid_utf8};

verus! {

/// The longest cursor, in UTF-16 code units.
pub const HISTORY_CURSOR_MAX_UTF16: usize = 512;

/// The text a cursor encodes.
pub open spec fn cursor_payload(millis: i64, id: Seq<char>) -> Seq<char> {
    int_text(millis as int) + seq!['\n'] + id
}

/// The position a cursor for `(millis, id)` stands for: the canonical text of `millis`, and `id`.
pub open spec fn position_at(millis: i64, id: Seq<char>) -> Option<(Seq<char>, Seq<char>)> {
    match utc_millis_text(millis) {
        Some(copied_at) => Some((copied_at, id)),
        None => None,
    }
}

/// Whether a position can be written as a cursor: a cursor-safe id and a
/// parseable timestamp inside the four-digit years.
pub open spec fn cursor_encodable(copied_at: Seq<char>, id: Seq<char>) -> bool {
    cursor_safe_id(id) && match rfc3339_millis(copied_at) {
        Some(m) => four_digit_year_millis(m as int),
        None => false,
    }
}

/// The millisecond and id a cursor holds, or `None` when the store rejects
/// it: it must be canonical base64 of UTF-8 text `"<millis>\n<id>"`, with
/// `millis` written exactly as `i64::to_string` writes it, inside the
/// four-digit years, and a cursor-safe id.
pub open spec fn cursor_millis_id(cursor: Seq<char>) -> Option<(i64, Seq<char>)> {
    match base64_decoding(cursor) {
        None => None,
        Some(bytes) => if base64_encoding(bytes) != cursor || !valid_utf8(bytes) {
            None
        } else {
            let text = decode_utf8(bytes);
            match index_of(text, '\n') {
                None => None,
                Some(k) => {
                    let digits = text.take(k);
                    let id = text.skip(k + 1);
                    if !cursor_safe_id(id) || digits.len() == 0 || digits[0] == '+' {
                        None
                    } else {
                        match parse_i64_text(digits) {
                            None => None,
                            Some(millis) => if int_text(millis as int) != digits
                                || !four_digit_year_millis(millis as int) {
                                None
                            } else {
                                Some((millis, id))
                            },
                        }
                    }
                },
            }
        },
    }
}

/// The position `(copied_at, id)` a cursor stands for: the canonical text of
/// the millisecond it holds, and its id (see [`cursor_millis_id`]).
pub open spec fn cursor_position(cursor: Seq<char>) -> Option<(Seq<char>, Seq<char>)> {
    match cursor_millis_id(cursor) {
        None => None,
        Some((millis, id)) => position_at(millis, id),
    }
}

pub proof fn lemma_encode_utf8_concat(a: Seq<char>, b: Seq<char>)
    ensures
        encode_utf8(a + b) == encode_utf8(a) + encode_utf8(b),
    decreases a.len(),
{
    if a.len() > 0 {
        assert((a + b).drop_first() =~= a.drop_first() + b);
        lemma_encode_utf8_concat(a.drop_first(), b);
        assert(encode_utf8(a + b) =~= encode_utf8(a) + encode_utf8(b));
    } else {
        assert(a + b =~= b);
    }
}

proof fn lemma_int_text_shape(m: i64)
    ensures
        int_text(m as int).len() <= 20,
        vstd::utf8::is_ascii_chars(int_text(m as int)),
        forall|k: int| 0 <= k < int_text(m as int).len() ==> #[trigger] int_text(m as int)[k] != '\n',
{
    let mag: nat = if m < 0 {
        (-(m as int)) as nat
    } else {
        m as nat
    };
    lemma_nat_text_value(mag);
    assert(pow10(19) == 10_000_000_000_000_000_000) by {
        reveal_with_fuel(pow10, 20);
    }
    lemma_nat_text_len(mag, 19);
    let t = int_text(m as int);
    if m < 0 {
        assert(t =~= seq!['-'] + nat_text(mag));
    }
    assert forall|k: int| 0 <= k < t.len() implies #[trigger] t[k] != '\n' && '\0' <= t[k] <= '\u{7f}' by {
        if m < 0 {
            if k > 0 {
                assert(t[k] == nat_text(mag)[k - 1]);
                assert(is_digit(nat_text(mag)[k - 1]));
            }
        } else {
            assert(is_digit(nat_text(mag)[k]));
        }
    }
}

/// Encodes the position `(copied_at, id)` as a cursor.
pub fn encode_cursor_position(copied_at: &str, id: &str) -> (out: Result<String, String>)
    ensures
        out is Ok <==> cursor_encodable(copied_at@, id@),
        out matches Ok(cursor) ==> (rfc3339_millis(copied_at@) matches Some(m) && cursor@
            == base64_encoding(encode_utf8(cursor_payload(m, id@))) && cursor_millis_id(cursor@)
            == Some((m, id@)) && cursor_position(cursor@) == position_at(m, id@)),
        !cursor_safe_id(id@) ==> (out matches Err(e) && e@ == "分页游标记录标识无效"@),
        cursor_safe_id(id@) && !cursor_encodable(copied_at@, id@) ==> (out matches Err(e) && e@
            == "分页游标时间戳无效"@),
{
    if !history_id_is_cursor_safe(id) {
        return Err(String::from_str("分页游标记录标识无效"));
    }
    let millis = match parse_rfc3339_millis(copied_at) {
        Ok(millis) => millis,
        Err(_) => return Err(String::from_str("分页游标时间戳无效")),
    };
    if millis < -62_167_219_200_000 || millis > 253_402_300_799_999 {
        return Err(String::from_str("分页游标时间戳无效"));
    }
    let mut payload = i64_text(millis);
    payload.push('\n');
    let id_chars = chars_of(id);
    let mut i: usize = 0;
    let ghost head = payload@;
    while i < id_chars.len()
        invariant
            i <= id_chars@.len(),
            payload@ == head + id_chars@.take(i as int),
        decreases id_chars@.len() - i,
    {
        payload.push(id_chars[i]);
        assert(id_chars@.take(i + 1) =~= id_chars@.take(i as int).push(id_chars@[i as int]));
        i = i + 1;
    }
    assert(id_chars@.take(i as int) =~= id_chars@);
    assert(payload@ =~= cursor_payload(millis, id@));
    let text = string_from_chars(&payload);
    let bytes = text.as_str().as_bytes();
    proof {
        lemma_int_text_shape(millis);
        lemma_encode_utf8_concat(int_text(millis as int) + seq!['\n'], id@);
        lemma_encode_utf8_concat(int_text(millis as int), seq!['\n']);
        vstd::utf8::is_ascii_chars_encode_utf8(int_text(millis as int) + seq!['\n']);
        assert(vstd::utf8::is_ascii_chars(int_text(millis as int) + seq!['\n']));
    }
    let cursor = base64_encode(bytes);
    let cursor_chars = chars_of(cursor.as_str());
    if !utf16_len_at_most(&cursor_chars, HISTORY_CURSOR_MAX_UTF16) {
        proof {
            lemma_ascii_utf16_len(cursor@);
        }
        return Err(String::from_str("分页游标过长"));
    }
    proof {
        let t = cursor_payload(millis, id@);
        encode_utf8_valid_utf8(t);
        encode_utf8_decode_utf8(t);
        lemma_parse_int_text(millis);
        let k = int_text(millis as int).len() as int;
        lemma_index_of_after_prefix(int_text(millis as int), id@);
        assert(t.take(k) =~= int_text(millis as int));
        assert(t.skip(k + 1) =~= id@);
        assert(bytes@ == encode_utf8(t));
        assert(base64_decoding(cursor@) == Some(bytes@));
        assert(base64_encoding(bytes@) == cursor@);
        assert(decode_utf8(bytes@) == t);
        assert(index_of(t, '\n') == Some(k));
        let digits = t.take(k);
        assert(digits.len() > 0);
        assert(digits[0] != '+') by {
            if millis >= 0 {
                lemma_nat_text_value(millis as nat);
                assert(is_digit(nat_text(millis as nat)[0]));
            }
        }
        assert(parse_i64_text(digits) == Some(millis));
    }
    Ok(cursor)
}

proof fn lemma_index_of_after_prefix(prefix: Seq<char>, rest: Seq<char>)
    requires
        forall|k: int| 0 <= k < prefix.len() ==> #[trigger] prefix[k] != '\n',
    ensures
        index_of(prefix + seq!['\n'] + rest, '\n') == Some(prefix.len() as int),
    decreases prefix.len(),
{
    let s = prefix + seq!['\n'] + rest;
    if prefix.len() > 0 {
        assert(s.drop_first() =~= prefix.drop_first() + seq!['\n'] + rest);
        lemma_index_of_after_prefix(prefix.drop_first(), rest);
    }
}

/// The cursor for the position of a record.
pub fn encode_cursor(item: &HistoryItem) -> (out: Result<String, String>)
    ensures
        out is Ok <==> cursor_encodable(item.copied_at@, item.id@),
        out matches Ok(cursor) ==> (rfc3339_millis(item.copied_at@) matches Some(m)
            && cursor_millis_id(cursor@) == Some((m, item.id@)) && cursor_position(cursor@)
            == position_at(m, item.id@)),
{
    encode_cursor_position(item.copied_at.as_str(), item.id.as_str())
}


fn invalid_cursor() -> (s: String)
    ensures
        s@ == "分页游标无效"@,
{
    String::from_str("分页游标无效")
}

/// Reads back the position `(copied_at, id)` a cursor stands for.
pub fn decode_cursor(cursor: &str) -> (out: Result<(String, String), String>)
    ensures
        out is Ok <==> cursor_position(cursor@) is Some,
        cursor_millis_id(cursor@) is Some ==> out is Ok,
        out matches Ok((copied_at, id)) ==> cursor_position(cursor@) == Some((copied_at@, id@)),
        out matches Err(message) ==> message@ == "分页游标无效"@,
{
    let decoded = match base64_decode(cursor) {
        Ok(bytes) => bytes,
        Err(_) => return Err(invalid_cursor()),
    };
    let reencoded = base64_encode(decoded.as_slice());
    if !chars_eq(&chars_of(reencoded.as_str()), &chars_of(cursor)) {
        return Err(invalid_cursor());
    }
    let ghost bytes = decoded@;
    let text = match string_from_utf8(decoded) {
        Ok(text) => text,
        Err(_) => return Err(invalid_cursor()),
    };
    let chars = chars_of(text.as_str());
    let n = chars.len();
    let newline = match find_char(&chars, '\n') {
        Some(k) => k,
        None => return Err(invalid_cursor()),
    };
    let digits_text = text.as_str().substring_char(0, newline);
    let id_text = text.as_str().substring_char(newline + 1, n);
    let digits = chars_of(digits_text);
    assert(digits@ =~= chars@.take(newline as int));
    if !history_id_is_cursor_safe(id_text) || digits.len() == 0 || digits[0] == '+' {
        return Err(invalid_cursor());
    }
    let millis = match parse_i64(&digits) {
        Some(millis) => millis,
        None => return Err(invalid_cursor()),
    };
    if !chars_eq(&i64_text(millis), &digits) {
        return Err(invalid_cursor());
    }
    if millis < -62_167_219_200_000 || millis > 253_402_300_799_999 {
        return Err(invalid_cursor());
    }
    let copied_at = match format_utc_millis(millis) {
        Some(text) => text,
        None => return Err(invalid_cursor()),
    };
    Ok((copied_at, String::from_str(id_text)))
}

} // verus!
