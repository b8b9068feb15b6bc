//! Identifiers, hashes and tokens: what the store accepts as a record id,
//! an image hash or a restore token.

use crate::encoding::{base64_encode, base64_encoded_len};
use crate::external::random_bytes;
use crate::text::{
    chars_have_control, chars_of, has_control, is_query_space, string_from_chars, trim_end_seq,
    trim_query_seq, trim_query_value, trim_start_seq, utf16_len, utf16_len_at_most,
};
use vstd::prelude::*;
use vstd::string::*;
use vstd::utf8::*;

verus! {

/// The longest id (in UTF-8 bytes) whose cursor fits in 512 UTF-16 units.
pub open spec fn max_cursor_id_bytes() -> nat {
    363
}

/// A record id that can appear in a paging cursor: non-empty, without
/// surrounding white space or control characters, and short enough that the
/// base64 cursor `"<i64::MIN>\n<id>"` stays within 512 UTF-16 code units.
pub open spec fn cursor_safe_id(id: Seq<char>) -> bool {
    &&& id.len() > 0
    &&& trim_query_seq(id) == id
    &&& !has_control(id)
    &&& encode_utf8(id).len() <= max_cursor_id_bytes()
}

pub open spec fn is_lower_hex(c: char) -> bool {
    ('0' <= c && c <= '9') || ('a' <= c && c <= 'f')
}

/// Exactly 64 lower-case hexadecimal digits.
pub open spec fn lower_hex_64(s: Seq<char>) -> bool {
    s.len() == 64 && forall|i: int| 0 <= i < s.len() ==> is_lower_hex(#[trigger] s[i])
}

pub proof fn lemma_ascii_utf16_len(s: Seq<char>)
    requires
        is_ascii_chars(s),
    ensures
        utf16_len(s) == s.len(),
    decreases s.len(),
{
    if s.len() > 0 {
        assert(is_ascii_chars(s.drop_last()));
        lemma_ascii_utf16_len(s.drop_last());
    }
}

fn chars_all_lower_hex(s: &Vec<char>) -> (b: bool)
    ensures
        b == (forall|i: int| 0 <= i < s@.len() ==> is_lower_hex(#[trigger] s@[i])),
{
    let mut i: usize = 0;
    while i < s.len()
        invariant
            i <= s@.len(),
            forall|k: int| 0 <= k < i ==> is_lower_hex(#[trigger] s@[k]),
        decreases s@.len() - i,
    {
        let c = s[i];
        if !(('0' <= c && c <= '9') || ('a' <= c && c <= 'f')) {
            return false;
        }
        i = i + 1;
    }
    true
}

/// Whether `value` is a SHA-256 style image hash: 64 lower-case hex digits.
pub fn image_hash_is_canonical(value: &str) -> (b: bool)
    ensures
        b == lower_hex_64(value@),
{
    let chars = chars_of(value);
    chars.len() == 64 && chars_all_lower_hex(&chars)
}

/// Whether `token` has the shape of a restore token: 64 lower-case hex digits.
pub fn restore_token_is_valid(token: &str) -> (b: bool)
    ensures
        b == lower_hex_64(token@),
{
    let chars = chars_of(token);
    chars.len() == 64 && chars_all_lower_hex(&chars)
}

/// Whether `id` may be used as a record or collection id (see [`cursor_safe_id`]).
pub fn history_id_is_cursor_safe(id: &str) -> (b: bool)
    ensures
        b == cursor_safe_id(id@),
{
    let chars = chars_of(id);
    if chars.len() == 0 {
        return false;
    }
    if trim_query_value(id).unicode_len() != chars.len() {
        proof {
            assert(trim_query_seq(id@).len() != id@.len());
        }
        return false;
    }
    let trimmed = trim_query_value(id);
    proof {
        lemma_trim_same_len(id@);
    }
    if chars_have_control(&chars) {
        return false;
    }
    let id_bytes = id.as_bytes();
    if id_bytes.len() > 363 {
        return false;
    }
    let prefix = "-9223372036854775808\n";
    proof {
        reveal_strlit("-9223372036854775808\n");
        is_ascii_chars_encode_utf8(prefix@);
    }
    let mut bytes: Vec<u8> = prefix.as_bytes_vec();
    let mut i: usize = 0;
    while i < id_bytes.len()
        invariant
            i <= id_bytes@.len(),
            id_bytes@.len() <= 363,
            bytes@.len() == 21 + i,
        decreases id_bytes@.len() - i,
    {
        bytes.push(id_bytes[i]);
        i = i + 1;
    }
    let encoded = base64_encode(bytes.as_slice());
    let encoded_chars = chars_of(encoded.as_str());
    proof {
        lemma_ascii_utf16_len(encoded@);
        assert(bytes@.len() <= 384);
        assert(base64_encoded_len(bytes@.len()) <= 512);
    }
    utf16_len_at_most(&encoded_chars, 512)
}

/// Trimming that keeps the length keeps the text.
pub proof fn lemma_trim_same_len(s: Seq<char>)
    ensures
        trim_query_seq(s).len() <= s.len(),
        trim_query_seq(s).len() == s.len() ==> trim_query_seq(s) == s,
{
    lemma_trim_start_shape(s);
    lemma_trim_end_shape(trim_start_seq(s));
}

pub proof fn lemma_trim_start_shape(s: Seq<char>)
    ensures
        trim_start_seq(s).len() <= s.len(),
        trim_start_seq(s).len() == s.len() ==> trim_start_seq(s) == s,
        trim_start_seq(s) == s.subrange(s.len() - trim_start_seq(s).len(), s.len() as int),
    decreases s.len(),
{
    if s.len() > 0 && is_query_space(s[0]) {
        lemma_trim_start_shape(s.drop_first());
        let t = trim_start_seq(s.drop_first());
        assert(s.drop_first().subrange(s.drop_first().len() - t.len(), s.drop_first().len() as int)
            =~= s.subrange(s.len() - t.len(), s.len() as int));
    } else {
        assert(s.subrange(0, s.len() as int) =~= s);
    }
}

pub proof fn lemma_trim_end_shape(s: Seq<char>)
    ensures
        trim_end_seq(s).len() <= s.len(),
        trim_end_seq(s).len() == s.len() ==> trim_end_seq(s) == s,
        trim_end_seq(s) == s.subrange(0, trim_end_seq(s).len() as int),
    decreases s.len(),
{
    if s.len() > 0 && is_query_space(s.last()) {
        lemma_trim_end_shape(s.drop_last());
        let t = trim_end_seq(s.drop_last());
        assert(s.drop_last().subrange(0, t.len() as int) =~= s.subrange(0, t.len() as int));
    } else {
        assert(s.subrange(0, s.len() as int) =~= s);
    }
}

/// The random bytes in a restore token.
pub const RESTORE_TOKEN_BYTES: usize = 32;

/// The lower-case hexadecimal digit of a value below 16.
pub open spec fn hex_char(v: u8) -> char {
    if v < 10 {
        (48 + v) as char
    } else {
        (87 + v) as char
    }
}

/// Bytes as lower-case hexadecimal text, two digits a byte, high digit first.
pub open spec fn lower_hex_text(bytes: Seq<u8>) -> Seq<char>
    decreases bytes.len(),
{
    if bytes.len() == 0 {
        Seq::empty()
    } else {
        let b = bytes.last();
        lower_hex_text(bytes.drop_last()) + seq![hex_char(b / 16), hex_char(b % 16)]
    }
}

/// The restore token made of the given random bytes: their lower-case hex.
pub fn restore_token_from_bytes(bytes: &[u8]) -> (token: String)
    ensures
        token@ == lower_hex_text(bytes@),
        token@.len() == 2 * bytes@.len(),
        forall|k: int| 0 <= k < token@.len() ==> is_lower_hex(#[trigger] token@[k]),
{
    let mut token: Vec<char> = Vec::new();
    let mut i: usize = 0;
    while i < bytes.len()
        invariant
            i <= bytes@.len(),
            token@ == lower_hex_text(bytes@.take(i as int)),
            token@.len() == 2 * i,
            forall|k: int| 0 <= k < token@.len() ==> is_lower_hex(#[trigger] token@[k]),
        decreases bytes@.len() - i,
    {
        let byte = bytes[i];
        token.push(hex_digit(byte / 16));
        token.push(hex_digit(byte % 16));
        proof {
            assert(bytes@.take(i + 1).drop_last() =~= bytes@.take(i as int));
            assert(bytes@.take(i + 1).last() == byte);
        }
        i = i + 1;
        proof {
            assert(token@ =~= lower_hex_text(bytes@.take(i as int)));
        }
    }
    assert(bytes@.take(i as int) =~= bytes@);
    string_from_chars(&token)
}

/// A fresh restore token: 32 random bytes as lower-case hex. Whether the
/// system's random source answers is not for this library to decide; when it
/// does not, the token is refused with its message.
pub fn generate_restore_token() -> (out: Result<String, String>)
    ensures
        out matches Ok(token) ==> lower_hex_64(token@),
        out matches Ok(token) ==> exists|bytes: Seq<u8>|
            bytes.len() == 32 && #[trigger] lower_hex_text(bytes) == token@,
        out matches Err(message) ==> message@ == "无法生成历史恢复令牌"@,
{
    let bytes = match random_bytes(RESTORE_TOKEN_BYTES) {
        Some(bytes) => bytes,
        None => return Err(String::from_str("无法生成历史恢复令牌")),
    };
    let token = restore_token_from_bytes(bytes.as_slice());
    proof {
        assert(lower_hex_text(bytes@) == token@);
    }
    Ok(token)
}

fn hex_digit(value: u8) -> (c: char)
    requires
        value < 16,
    ensures
        is_lower_hex(c),
        c == hex_char(value),
{
    if value < 10 {
        (('0' as u8) + value) as char
    } else {
        (('a' as u8) + (value - 10)) as char
    }
}

} // verus!
