//! Profile metadata as the applet shows it: defaults for properties the
//! configuration service did not give, and timestamps as text.

use crate::types::{opt_text, ProfileMetadata};
use chrono::{DateTime, Local};
use vstd::prelude::*;

verus! {

/// Earliest second (since the Unix epoch) that a `DateTime<Utc>` can hold:
/// the start of 1 January of year -262143.
pub const MIN_TIMESTAMP: i64 = -8334601228800;

/// Latest second (since the Unix epoch) that a `DateTime<Utc>` can hold: the
/// end of 31 December of year 262142.
pub const MAX_TIMESTAMP: i64 = 8210266876799;

/// `secs` seconds after the Unix epoch is a date that `chrono` represents.
pub open spec fn representable(secs: i64) -> bool {
    MIN_TIMESTAMP <= secs <= MAX_TIMESTAMP
}

/// The pattern timestamps are shown with: date, then time of day.
pub open spec fn time_pattern() -> Seq<char> {
    "%Y-%m-%d %H:%M:%S"@
}

/// The shape of every rendering of `time_pattern()`: a year of at least four
/// characters, then `-MM-DD HH:MM:SS`.
pub open spec fn is_local_time_text(t: Seq<char>) -> bool {
    &&& t.len() >= 19
    &&& t[t.len() - 15] == '-'
    &&& t[t.len() - 12] == '-'
    &&& t[t.len() - 9] == ' '
    &&& t[t.len() - 6] == ':'
    &&& t[t.len() - 3] == ':'
}

/// `text` is `secs` seconds after the Unix epoch written with
/// `time_pattern()` as the wall clock of some time zone shows it: the date and
/// time in UTC moved by that zone's offset, which `chrono` keeps under a day.
/// Which zone is left open, so this relates an instant to each of its
/// renderings and fixes none of them.
pub uninterp spec fn shows_instant(secs: i64, text: Seq<char>) -> bool;

/// Calls `DateTime::<Utc>::from_timestamp(secs, 0)` and renders the result in
/// the machine's time zone (`with_timezone(&Local)`, then `format(pattern)`).
/// Claims that there is a text exactly when `secs` lies in the range of dates
/// `chrono` represents (years -262143 to 262142), and that the text has the
/// shape the pattern gives (chrono pads the year to four digits and the other
/// fields to two), and that it shows the instant `secs` in some time zone
/// (`shows_instant`). Which zone, and so which date and time, depends on the
/// machine, so that is not claimed.
#[verifier::external_body]
fn local_time_text(secs: i64, pattern: &str) -> (r: Option<String>)
    requires
        pattern@ == time_pattern(),
    ensures
        r is Some <==> representable(secs),
        r matches Some(t) ==> is_local_time_text(t@) && shows_instant(secs, t@),
{
    match DateTime::from_timestamp(secs, 0) {
        Some(t) => Some(t.with_timezone(&Local).format(pattern).to_string()),
        None => None,
    }
}

/// The local date and time of a Unix timestamp (seconds), read as a signed
/// number of seconds, or `None` where `chrono` cannot represent it.
pub fn local_time_of(timestamp: u64) -> (r: Option<String>)
    ensures
        r is Some <==> representable(timestamp as i64),
        r matches Some(t) ==> is_local_time_text(t@) && shows_instant(timestamp as i64, t@),
{
    let secs = timestamp as i64;
    let pattern = "%Y-%m-%d %H:%M:%S";
    proof {
        reveal_strlit("%Y-%m-%d %H:%M:%S");
    }
    local_time_text(secs, pattern)
}

/// Decimal digit for `d < 10`.
pub open spec fn digit_char(d: int) -> char {
    if d == 0 {
        '0'
    } else if d == 1 {
        '1'
    } else if d == 2 {
        '2'
    } else if d == 3 {
        '3'
    } else if d == 4 {
        '4'
    } else if d == 5 {
        '5'
    } else if d == 6 {
        '6'
    } else if d == 7 {
        '7'
    } else if d == 8 {
        '8'
    } else {
        '9'
    }
}

/// Decimal notation of `n`, without leading zeros.
pub open spec fn decimal(n: nat) -> Seq<char>
    decreases n,
{
    if n < 10 {
        seq![digit_char(n as int)]
    } else {
        decimal(n / 10) + seq![digit_char((n % 10) as int)]
    }
}

fn digit_text(d: u64) -> (s: &'static str)
    requires
        d < 10,
    ensures
        s@ == seq![digit_char(d as int)],
{
    if d == 0 {
        proof {
            reveal_strlit("0");
        }
        "0"
    } else if d == 1 {
        proof {
            reveal_strlit("1");
        }
        "1"
    } else if d == 2 {
        proof {
            reveal_strlit("2");
        }
        "2"
    } else if d == 3 {
        proof {
            reveal_strlit("3");
        }
        "3"
    } else if d == 4 {
        proof {
            reveal_strlit("4");
        }
        "4"
    } else if d == 5 {
        proof {
            reveal_strlit("5");
        }
        "5"
    } else if d == 6 {
        proof {
            reveal_strlit("6");
        }
        "6"
    } else if d == 7 {
        proof {
            reveal_strlit("7");
        }
        "7"
    } else if d == 8 {
        proof {
            reveal_strlit("8");
        }
        "8"
    } else {
        proof {
            reveal_strlit("9");
        }
        "9"
    }
}

/// `n` in decimal notation (as `format!("{}", n)` writes it).
pub fn decimal_text(n: u64) -> (r: String)
    ensures
        r@ == decimal(n as nat),
    decreases n,
{
    if n < 10 {
        String::from_str(digit_text(n))
    } else {
        let mut r = decimal_text(n / 10);
        r.append(digit_text(n % 10));
        r
    }
}

/// A timestamp property as the applet shows it: `absent` when it is zero,
/// else its local time text `local`, else (out of range) the number itself.
pub open spec fn shown_timestamp(t: u64, absent: Seq<char>, local: Option<Seq<char>>) -> Seq<char> {
    if t == 0 {
        absent
    } else {
        match local {
            Some(text) => text,
            None => decimal(t as nat),
        }
    }
}

/// `shown_timestamp` as an owned string.
pub fn timestamp_text(timestamp: u64, absent: &str, local: Option<String>) -> (r: String)
    ensures
        r@ == shown_timestamp(timestamp, absent@, opt_text(local)),
{
    if timestamp == 0 {
        String::from_str(absent)
    } else {
        match local {
            Some(text) => text,
            None => decimal_text(timestamp),
        }
    }
}

/// A Unix timestamp as text: the local date and time where `chrono` can
/// represent it, else the number itself.
pub fn format_timestamp(timestamp: u64) -> (r: String)
    ensures
        !representable(timestamp as i64) ==> r@ == decimal(timestamp as nat),
        representable(timestamp as i64) ==> is_local_time_text(r@) && shows_instant(
            timestamp as i64,
            r@,
        ),
{
    match local_time_of(timestamp) {
        Some(text) => text,
        None => decimal_text(timestamp),
    }
}

/// A timestamp property as the applet shows it: `absent` when it is zero.
pub fn timestamp_or(timestamp: u64, absent: &str) -> (r: String)
    ensures
        timestamp == 0 ==> r@ == absent@,
        timestamp != 0 && !representable(timestamp as i64) ==> r@ == decimal(timestamp as nat),
        timestamp != 0 && representable(timestamp as i64) ==> is_local_time_text(r@)
            && shows_instant(timestamp as i64, r@),
{
    if timestamp > 0 {
        format_timestamp(timestamp)
    } else {
        String::from_str(absent)
    }
}

pub open spec fn or_default<T>(o: Option<T>, d: T) -> T {
    match o {
        Some(v) => v,
        None => d,
    }
}

/// The metadata of a profile from the configuration's properties (each
/// `None` when reading it failed) and the local time texts of its two
/// timestamps: a profile counts as valid, never imported, never used and used
/// zero times unless a property says otherwise.
pub fn metadata_from_texts(
    valid: Option<bool>,
    import_timestamp: Option<u64>,
    import_text: Option<String>,
    last_used_timestamp: Option<u64>,
    last_used_text: Option<String>,
    used_count: Option<u32>,
) -> (r: ProfileMetadata)
    ensures
        r.valid == or_default(valid, true),
        r.use_count == or_default(used_count, 0u32),
        r.imported@ == shown_timestamp(
            or_default(import_timestamp, 0u64),
            "unknown"@,
            opt_text(import_text),
        ),
        r.last_used@ == shown_timestamp(
            or_default(last_used_timestamp, 0u64),
            "never"@,
            opt_text(last_used_text),
        ),
{
    let valid = match valid {
        Some(v) => v,
        None => true,
    };
    let import_timestamp = match import_timestamp {
        Some(t) => t,
        None => 0,
    };
    let last_used_timestamp = match last_used_timestamp {
        Some(t) => t,
        None => 0,
    };
    let use_count = match used_count {
        Some(c) => c,
        None => 0,
    };
    ProfileMetadata {
        valid,
        imported: timestamp_text(import_timestamp, "unknown", import_text),
        last_used: timestamp_text(last_used_timestamp, "never", last_used_text),
        use_count,
    }
}

/// The metadata of a profile from the configuration's properties, each
/// `None` when reading it failed, with each nonzero timestamp rendered in
/// local time: `metadata_from_texts` given the local time text of the
/// import timestamp and that of the last-used timestamp.
pub fn metadata_from_properties(
    valid: Option<bool>,
    import_timestamp: Option<u64>,
    last_used_timestamp: Option<u64>,
    used_count: Option<u32>,
) -> (r: ProfileMetadata)
    ensures
        r.valid == or_default(valid, true),
        r.use_count == or_default(used_count, 0u32),
        ({
            let t = or_default(import_timestamp, 0u64);
            &&& t == 0 ==> r.imported@ == "unknown"@
            &&& t != 0 && !representable(t as i64) ==> r.imported@ == decimal(t as nat)
            &&& t != 0 && representable(t as i64) ==> is_local_time_text(r.imported@)
                && shows_instant(t as i64, r.imported@)
        }),
        ({
            let t = or_default(last_used_timestamp, 0u64);
            &&& t == 0 ==> r.last_used@ == "never"@
            &&& t != 0 && !representable(t as i64) ==> r.last_used@ == decimal(t as nat)
            &&& t != 0 && representable(t as i64) ==> is_local_time_text(r.last_used@)
                && shows_instant(t as i64, r.last_used@)
        }),
{
    let it = match import_timestamp {
        Some(t) => t,
        None => 0,
    };
    let lt = match last_used_timestamp {
        Some(t) => t,
        None => 0,
    };
    let import_text = if it > 0 {
        local_time_of(it)
    } else {
        None
    };
    let last_used_text = if lt > 0 {
        local_time_of(lt)
    } else {
        None
    };
    metadata_from_texts(
        valid,
        import_timestamp,
        import_text,
        last_used_timestamp,
        last_used_text,
        used_count,
    )
}

} // verus!
