//! Points in time, counted in whole seconds, and their stored text form.

use vstd::prelude::*;

use crate::text::{has_char, trim, trimmed};

verus! {

/// chrono's error for a text that does not read as a date and time.
#[verifier::external_type_specification]
#[verifier::external_body]
pub struct ExParseError(chrono::ParseError);

/// What chrono writes for the moment `secs` seconds after the start of 1970
/// (UTC) under the strftime pattern `pattern`; `None` where chrono has no such
/// moment or cannot write it.
pub uninterp spec fn written_seconds(secs: int, pattern: Seq<char>) -> Option<Seq<char>>;

/// The seconds since the start of 1970 of the date and time that chrono reads
/// from `text` under the strftime pattern `pattern`; `None` where it reads none.
pub uninterp spec fn read_seconds(text: Seq<char>, pattern: Seq<char>) -> Option<int>;

/// `chrono::DateTime::from_timestamp`, then `format` with `pattern`, written
/// out with `write_to`. The contract only names the result: the same seconds
/// and pattern always give the same text.
#[verifier::external_body]
fn format_seconds(secs: i64, pattern: &str) -> (r: Option<String>)
    ensures
        r is Some <==> written_seconds(secs as int, pattern@) is Some,
        r matches Some(t) ==> written_seconds(secs as int, pattern@) == Some(t@),
{
    let moment = chrono::DateTime::from_timestamp(secs, 0)?;
    let mut out = String::new();
    match moment.format(pattern).write_to(&mut out) {
        Ok(()) => Some(out),
        Err(_) => None,
    }
}

/// `chrono::NaiveDateTime::parse_from_str`, the result taken as UTC and
/// counted in seconds with `timestamp`. The contract only names the result:
/// the same text and pattern always read as the same seconds, or fail alike.
#[verifier::external_body]
fn parse_seconds(text: &str, pattern: &str) -> (r: Result<i64, chrono::ParseError>)
    ensures
        r is Ok <==> read_seconds(text@, pattern@) is Some,
        r matches Ok(v) ==> read_seconds(text@, pattern@) == Some(v as int),
{
    match chrono::NaiveDateTime::parse_from_str(text, pattern) {
        Ok(moment) => Ok(moment.and_utc().timestamp()),
        Err(e) => Err(e),
    }
}

/// `chrono::Utc::now`, counted in seconds with `timestamp`. Nothing is
/// promised of the result. chrono stops the program where the system clock
/// stands before 1970.
#[verifier::external_body]
fn clock_seconds() -> i64 {
    chrono::Utc::now().timestamp()
}

/// The strftime pattern of a stored date and time, as in
/// `Jan 01 2023 12:00:00 AM`.
pub const DATETIME_PATTERN: &'static str = "%b %d %Y %r";

/// The stored text of `secs`; meaningful where `storable(secs)`.
pub open spec fn stamp_text(secs: int) -> Seq<char> {
    written_seconds(secs, DATETIME_PATTERN@)->0
}

/// `secs` can be stored: it has a text of one line, and that text, trimmed,
/// reads as `secs` again.
pub open spec fn storable(secs: int) -> bool {
    &&& i64::MIN <= secs <= i64::MAX
    &&& written_seconds(secs, DATETIME_PATTERN@) is Some
    &&& !stamp_text(secs).contains('\n')
    &&& read_seconds(trim(stamp_text(secs)), DATETIME_PATTERN@) == Some(secs)
}

/// The seconds that the header value `text` stands for: what it reads as once
/// trimmed, provided that can be stored.
pub open spec fn stamp_of(text: Seq<char>) -> Option<int> {
    match read_seconds(trim(text), DATETIME_PATTERN@) {
        Some(secs) => if storable(secs) {
            Some(secs)
        } else {
            None
        },
        None => None,
    }
}

/// The day in which the second `secs` lies, counted from the first day of
/// 1970 (UTC), a day being 86,400 seconds.
pub open spec fn day_of(secs: int) -> int {
    secs / 86_400
}

/// The day in which a second lies, counted from the first day of 1970 (UTC).
pub fn day_of_seconds(secs: i64) -> (r: i64)
    ensures
        r == day_of(secs as int),
{
    if secs >= 0 {
        secs / 86_400
    } else {
        let back: i64 = -(secs + 1);
        let whole: i64 = back / 86_400;
        assert(day_of(secs as int) == -(whole as int) - 1) by {
            let q = -(whole as int) - 1;
            let r = secs as int - q * 86_400;
            assert(back as int == whole as int * 86_400 + (back as int) % 86_400);
            assert(0 <= r < 86_400);
            vstd::arithmetic::div_mod::lemma_fundamental_div_mod_converse(
                secs as int,
                86_400,
                q,
                r,
            );
        }
        -whole - 1
    }
}

/// A point in time in whole seconds since the start of 1970 (UTC), which can
/// be stored and read back.
#[derive(Copy, Clone, Debug)]
pub struct Timestamp {
    secs: i64,
}

impl View for Timestamp {
    type V = int;

    closed spec fn view(&self) -> int {
        self.secs as int
    }
}

impl Timestamp {
    /// Every timestamp can be stored.
    #[verifier::type_invariant]
    pub open spec fn inv(self) -> bool {
        storable(self@)
    }

    /// The timestamp of `secs`, where `secs` can be stored.
    pub fn from_seconds(secs: i64) -> (r: Option<Timestamp>)
        ensures
            r is Some <==> storable(secs as int),
            r matches Some(t) ==> t@ == secs,
    {
        match format_seconds(secs, DATETIME_PATTERN) {
            None => None,
            Some(text) => {
                if has_char(text.as_str(), '\n') {
                    return None;
                }
                let inner = trimmed(text.as_str());
                match parse_seconds(inner.as_str(), DATETIME_PATTERN) {
                    Ok(back) => if back == secs {
                        Some(Timestamp { secs })
                    } else {
                        None
                    },
                    Err(_) => None,
                }
            },
        }
    }

    /// The seconds since the start of 1970.
    pub fn seconds(&self) -> (r: i64)
        ensures
            r == self@,
    {
        self.secs
    }

    /// The present moment, cut to whole seconds. The clock decides which
    /// second that is: the result is the timestamp of the second that the
    /// clock gave, and `None` only where that second cannot be stored.
    pub fn now() -> (r: Option<Timestamp>)
        ensures
            exists|secs: i64|
                (r is Some <==> #[trigger] storable(secs as int)) && (r matches Some(t) ==> t@
                    == secs),
            r matches Some(t) ==> storable(t@),
    {
        let secs = clock_seconds();
        let r = Timestamp::from_seconds(secs);
        assert((r is Some <==> storable(secs as int)) && (r matches Some(t) ==> t@ == secs));
        r
    }

    /// The timestamp that a header value stands for.
    pub fn parse(text: &str) -> (r: Option<Timestamp>)
        ensures
            r matches Some(t) ==> stamp_of(text@) == Some(t@),
            r is None ==> stamp_of(text@) is None,
    {
        let inner = trimmed(text);
        match parse_seconds(inner.as_str(), DATETIME_PATTERN) {
            Ok(secs) => Timestamp::from_seconds(secs),
            Err(_) => None,
        }
    }

    /// The timestamp written under a strftime pattern; `None` where chrono
    /// cannot write it so.
    pub fn format(&self, pattern: &str) -> (r: Option<String>)
        ensures
            r is Some <==> written_seconds(self@, pattern@) is Some,
            r matches Some(t) ==> written_seconds(self@, pattern@) == Some(t@),
    {
        format_seconds(self.secs, pattern)
    }

    /// The day of the timestamp, counted from the first day of 1970 (UTC).
    pub fn day(&self) -> (r: i64)
        ensures
            r == day_of(self@),
    {
        day_of_seconds(self.secs)
    }

    /// The stored text of the timestamp.
    pub fn to_text(&self) -> (r: String)
        ensures
            r@ == stamp_text(self@),
    {
        proof {
            use_type_invariant(self);
        }
        match format_seconds(self.secs, DATETIME_PATTERN) {
            Some(text) => text,
            None => String::new(),
        }
    }
}

} // verus!
