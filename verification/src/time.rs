//! Canonical UTC millisecond timestamps.

use crate::external::{
    format_utc_millis, four_digit_year_millis, now_utc_millis, parse_rfc3339_millis,
    rfc3339_millis, rfc3339_parse, utc_millis_text,
};
use crate::text::text_eq;
use vstd::prelude::*;
use vstd::string::*;

verus! {

pub const HISTORY_TIMESTAMP_MIN_MILLIS: i64 = -62_167_219_200_000;

pub const HISTORY_TIMESTAMP_MAX_MILLIS: i64 = 253_402_300_799_999;

pub const MAX_RETENTION_DAYS: i64 = 730_000;

/// The canonical text of an RFC 3339 timestamp: the same instant, in UTC with
/// millisecond precision and a `Z` suffix; `None` when it does not parse or
/// lies outside the four-digit years.
pub open spec fn canonical_timestamp(value: Seq<char>) -> Option<Seq<char>> {
    match rfc3339_millis(value) {
        None => None,
        Some(millis) => if four_digit_year_millis(millis as int) {
            utc_millis_text(millis)
        } else {
            None
        },
    }
}

/// What normalising a timestamp gives: the canonical text, or the message
/// that says why the text is refused.
pub open spec fn timestamp_result(value: Seq<char>) -> Result<Seq<char>, Seq<char>> {
    match rfc3339_parse(value) {
        Err(m) => Err("时间戳无效: "@ + m),
        Ok(millis) => match canonical_timestamp(value) {
            Some(text) => Ok(text),
            None => Err("时间戳必须位于 UTC 四位年份范围内"@),
        },
    }
}

/// The text view of a result that carries texts.
pub open spec fn text_result(r: Result<String, String>) -> Result<Seq<char>, Seq<char>> {
    match r {
        Ok(t) => Ok(t@),
        Err(e) => Err(e@),
    }
}

/// A timestamp already in canonical form.
pub open spec fn is_canonical_timestamp(value: Seq<char>) -> bool {
    canonical_timestamp(value) == Some(value)
}

/// Rewrites an RFC 3339 timestamp in canonical UTC millisecond form.
pub fn normalize_timestamp(value: &str) -> (out: Result<String, String>)
    ensures
        out is Ok <==> canonical_timestamp(value@) is Some,
        out matches Ok(text) ==> canonical_timestamp(value@) == Some(text@),
        rfc3339_millis(value@) is Some && canonical_timestamp(value@) is None ==> (out matches Err(
            message,
        ) && message@ == "时间戳必须位于 UTC 四位年份范围内"@),
        rfc3339_parse(value@) matches Err(m) ==> (out matches Err(message) && message@ == "时间戳无效: "@
            + m),
        text_result(out) == timestamp_result(value@),
        out matches Ok(text) ==> is_canonical_timestamp(text@) && timestamp_result(text@) == Ok::<
            Seq<char>,
            Seq<char>,
        >(text@),
        out matches Ok(text) ==> text@.len() > 0 && text@.last() == 'Z',
        rfc3339_millis(value@) matches Some(m) && four_digit_year_millis(m as int) ==> out is Ok,
{
    let millis = match parse_rfc3339_millis(value) {
        Ok(millis) => millis,
        Err(error) => {
            let mut message = String::from_str("时间戳无效: ");
            message.append(error.as_str());
            return Err(message);
        },
    };
    if millis < HISTORY_TIMESTAMP_MIN_MILLIS || millis > HISTORY_TIMESTAMP_MAX_MILLIS {
        return Err(String::from_str("时间戳必须位于 UTC 四位年份范围内"));
    }
    match format_utc_millis(millis) {
        Some(text) => Ok(text),
        None => Err(String::from_str("时间戳必须位于 UTC 四位年份范围内")),
    }
}

/// Whether `value` is already canonical.
pub fn timestamp_is_canonical(value: &str) -> (b: bool)
    ensures
        b == is_canonical_timestamp(value@),
{
    match normalize_timestamp(value) {
        Ok(text) => text_eq(text.as_str(), value),
        Err(_) => false,
    }
}

/// The earliest millisecond that may follow `previous` (or `now` when there is none).
pub open spec fn next_millis_floor(now: i64, previous_millis: Option<i64>) -> int {
    match previous_millis {
        None => now as int,
        Some(p) => if now as int >= p + 1 {
            now as int
        } else {
            p + 1
        },
    }
}

/// What stamping at clock value `now` gives for a value last stamped
/// `previous`: `now`, but strictly after `previous` when the clock lags,
/// within four-digit UTC years; a non-canonical or exhausted `previous`, or
/// an instant outside those years, is refused with its message.
pub open spec fn stamped_at(now: i64, previous: Option<&str>, out: Result<String, String>) -> bool {
    match previous {
        None => {
            &&& four_digit_year_millis(now as int) <==> out is Ok
            &&& out matches Ok(text) ==> utc_millis_text(now) == Some(text@)
            &&& out matches Err(message) ==> message@ == "时间戳必须位于 UTC 四位年份范围内"@
        },
        Some(p) => {
            &&& !is_canonical_timestamp(p@) ==> (out matches Err(message) && message@
                == "已有时间戳不是规范 UTC 毫秒格式"@)
            &&& is_canonical_timestamp(p@) ==> match rfc3339_millis(p@) {
                Some(pm) => {
                    &&& (pm == i64::MAX || !four_digit_year_millis(
                        next_millis_floor(now, Some(pm)),
                    )) <==> out is Err
                    &&& pm == i64::MAX ==> (out matches Err(message) && message@ == "时间戳已用尽"@)
                    &&& pm != i64::MAX && !four_digit_year_millis(next_millis_floor(now, Some(pm)))
                        ==> (out matches Err(message) && message@
                        == "时间戳必须位于 UTC 四位年份范围内"@)
                    &&& out matches Ok(text) ==> utc_millis_text(
                        next_millis_floor(now, Some(pm)) as i64,
                    ) == Some(text@)
                },
                None => false,
            }
        },
    }
}

/// The canonical timestamp to record at `now` for a value last stamped
/// `previous` (see [`stamped_at`]).
pub fn canonical_utc_millis_after_at(now: i64, previous: Option<&str>) -> (out: Result<
    String,
    String,
>)
    ensures
        stamped_at(now, previous, out),
{
    let minimum: i64 = match previous {
        None => now,
        Some(value) => {
            if !timestamp_is_canonical(value) {
                return Err(String::from_str("已有时间戳不是规范 UTC 毫秒格式"));
            }
            let previous_millis = match parse_rfc3339_millis(value) {
                Ok(millis) => millis,
                Err(_) => return Err(String::from_str("已有时间戳无效")),
            };
            if previous_millis == i64::MAX {
                return Err(String::from_str("时间戳已用尽"));
            }
            previous_millis + 1
        },
    };
    let millis = if now >= minimum {
        now
    } else {
        minimum
    };
    if millis < HISTORY_TIMESTAMP_MIN_MILLIS || millis > HISTORY_TIMESTAMP_MAX_MILLIS {
        return Err(String::from_str("时间戳必须位于 UTC 四位年份范围内"));
    }
    match format_utc_millis(millis) {
        Some(text) => Ok(text),
        None => Err(String::from_str("无法生成规范 UTC 毫秒时间戳")),
    }
}

/// The canonical timestamp for the current instant, strictly after `previous`
/// when given (see [`stamped_at`]); refused when the system clock cannot be
/// read as Unix milliseconds (it reads before 1970).
pub fn canonical_utc_millis_after(previous: Option<&str>) -> (out: Result<String, String>)
    ensures
        (out matches Err(message) && message@ == "无法读取当前系统时间"@) || exists|now: i64|
            now >= 0 && #[trigger] stamped_at(now, previous, out),
        out matches Ok(text) ==> exists|millis: i64|
            #![trigger utc_millis_text(millis)]
            {
                &&& four_digit_year_millis(millis as int)
                &&& utc_millis_text(millis) == Some(text@)
                &&& previous matches Some(p) ==> rfc3339_millis(p@) matches Some(pm) && pm < millis
            },
{
    let now = match now_utc_millis() {
        Some(now) => now,
        None => return Err(String::from_str("无法读取当前系统时间")),
    };
    let out = canonical_utc_millis_after_at(now, previous);
    proof {
        assert(stamped_at(now, previous, out));
        if out is Ok {
            match previous {
                None => {
                    assert(utc_millis_text(now) == Some(out->Ok_0@));
                },
                Some(p) => {
                    let pm = rfc3339_millis(p@)->Some_0;
                    let m = next_millis_floor(now, Some(pm)) as i64;
                    assert(utc_millis_text(m) == Some(out->Ok_0@));
                },
            }
        }
    }
    out
}

/// The canonical text of `days` days before `now_millis`: the retention cut-off.
pub fn retention_cutoff(now_millis: i64, days: i64) -> (out: String)
    requires
        -7_000_000_000_000_000 <= now_millis <= 7_000_000_000_000_000,
        0 <= days <= MAX_RETENTION_DAYS,
    ensures
        utc_millis_text((now_millis - days * 86_400_000) as i64) == Some(out@),
{
    let millis = now_millis - days * 86_400_000;
    match format_utc_millis(millis) {
        Some(text) => text,
        None => {
            assert(false);
            String::new()
        },
    }
}


/// The retention cut-off for a policy's retention, or the refusal of a negative one.
pub fn retention_cutoff_for(now_millis: i64, days: i64) -> (out: Result<String, String>)
    requires
        -7_000_000_000_000_000 <= now_millis <= 7_000_000_000_000_000,
        days <= MAX_RETENTION_DAYS,
    ensures
        days < 0 ==> (out matches Err(e) && e@ == "保留天数不能为负数"@),
        days >= 0 ==> (out matches Ok(t) && utc_millis_text((now_millis - days * 86_400_000) as i64)
            == Some(t@)),
{
    if days < 0 {
        return Err(String::from_str("保留天数不能为负数"));
    }
    Ok(retention_cutoff(now_millis, days))
}

} // verus!
