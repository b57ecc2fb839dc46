//! Instants of UTC time as plain values. The calendar belongs to `chrono`:
//! which instants it can represent is stated here, how it writes them is
//! named here, and the functions that call it say so over both.

use vstd::prelude::*;

verus! {

/// The first second that chrono can represent: the start of the first day
/// of the year -262143, which is the earliest year of its dates.
pub const FIRST_SECOND: i64 = -8_334_601_228_800;

/// The last second that chrono can represent: the end of the last day of
/// the year 262142, which is the latest year of its dates.
pub const LAST_SECOND: i64 = 8_210_266_876_799;

/// Whether `chrono::DateTime::from_timestamp(secs, nanos)` is `Some`: the
/// second lies within the years of chrono's dates, and the nanoseconds are
/// less than a second, or, to write a leap second, less than two seconds
/// in the last second of a minute.
pub open spec fn chrono_accepts(secs: int, nanos: int) -> bool {
    &&& FIRST_SECOND <= secs <= LAST_SECOND
    &&& 0 <= nanos < 2_000_000_000
    &&& nanos < 1_000_000_000 || secs % 60 == 59
}

/// What `DateTime::<Utc>::to_rfc3339_opts(SecondsFormat::AutoSi, true)`
/// returns for the instant `(secs, nanos)`.
pub uninterp spec fn rfc3339_text(secs: int, nanos: int) -> Seq<char>;

/// What `DateTime::<Utc>::to_string()` returns for the instant `(secs, nanos)`.
pub uninterp spec fn display_text(secs: int, nanos: int) -> Seq<char>;

/// What `DateTime::<Utc>::format(pattern).to_string()` returns for the
/// instant `(secs, nanos)`.
pub uninterp spec fn strftime_text(secs: int, nanos: int, pattern: Seq<char>) -> Seq<char>;

/// Calls `chrono::DateTime::from_timestamp` and reports whether it gave an
/// instant. Trusted: the contract restates the tests that chrono makes.
/// It takes the day of the second, counted from the first day of 1970,
/// and refuses it outside the years from -262143 to 262142; it takes the
/// second of the day and refuses nanoseconds from two seconds on, and from
/// one second on unless the second is the last of its minute.
#[verifier::external_body]
fn chrono_check(secs: i64, nanos: u32) -> (ok: bool)
    ensures
        ok == chrono_accepts(secs as int, nanos as int),
{
    chrono::DateTime::from_timestamp(secs, nanos).is_some()
}

/// Calls `chrono::Utc::now` and takes the instant apart with
/// `DateTime::timestamp` and `DateTime::timestamp_subsec_nanos`. Trusted:
/// chrono documents that `from_timestamp` takes such a pair back, and
/// nothing is said of which instant it is. (chrono panics where the clock
/// of the machine stands before 1970.)
#[verifier::external_body]
fn chrono_now() -> (t: (i64, u32))
    ensures
        chrono_accepts(t.0 as int, t.1 as int),
{
    let now = chrono::Utc::now();
    (now.timestamp(), now.timestamp_subsec_nanos())
}

/// Calls `DateTime::to_rfc3339_opts(SecondsFormat::AutoSi, true)` on the
/// instant that `from_timestamp` gives. Trusted: the result is the one that
/// `rfc3339_text` names.
#[verifier::external_body]
fn chrono_rfc3339(secs: i64, nanos: u32) -> (s: String)
    requires
        chrono_accepts(secs as int, nanos as int),
    ensures
        s@ == rfc3339_text(secs as int, nanos as int),
{
    match chrono::DateTime::from_timestamp(secs, nanos) {
        Some(t) => t.to_rfc3339_opts(chrono::SecondsFormat::AutoSi, true),
        None => String::new(),
    }
}

/// Calls `to_string` on the instant that `from_timestamp` gives, which
/// writes it through chrono's `Display`. Trusted: the result is the one that
/// `display_text` names.
#[verifier::external_body]
fn chrono_display(secs: i64, nanos: u32) -> (s: String)
    requires
        chrono_accepts(secs as int, nanos as int),
    ensures
        s@ == display_text(secs as int, nanos as int),
{
    match chrono::DateTime::from_timestamp(secs, nanos) {
        Some(t) => t.to_string(),
        None => String::new(),
    }
}

/// Calls `DateTime::format` with one of the two date patterns of this crate
/// on the instant that `from_timestamp` gives. Trusted: the result is the
/// one that `strftime_text` names. Other patterns are left out because
/// chrono panics when it writes a pattern that it cannot parse.
#[verifier::external_body]
fn chrono_format(secs: i64, nanos: u32, pattern: &str) -> (s: String)
    requires
        chrono_accepts(secs as int, nanos as int),
        pattern@ == COMPACT_DATE@ || pattern@ == DASHED_DATE@,
    ensures
        s@ == strftime_text(secs as int, nanos as int, pattern@),
{
    match chrono::DateTime::from_timestamp(secs, nanos) {
        Some(t) => t.format(pattern).to_string(),
        None => String::new(),
    }
}

/// Year, month and day without separators, as in `20241220`.
pub const COMPACT_DATE: &'static str = "%Y%m%d";

/// Year, month and day with dashes, as in `2024-12-20`.
pub const DASHED_DATE: &'static str = "%Y-%m-%d";

/// An instant of UTC time that chrono can represent: whole seconds since the
/// start of 1970 and the nanoseconds after them.
#[derive(Clone, Copy, Debug, PartialEq, Eq, Hash)]
pub struct Timestamp {
    secs: i64,
    nanos: u32,
}

impl Timestamp {
    #[verifier::type_invariant]
    spec fn representable(self) -> bool {
        chrono_accepts(self.secs as int, self.nanos as int)
    }

    /// Whole seconds since 1970-01-01T00:00:00Z.
    pub closed spec fn seconds(self) -> int {
        self.secs as int
    }

    /// Nanoseconds after the whole second.
    pub closed spec fn subsec_nanos(self) -> int {
        self.nanos as int
    }

    /// The instant `secs` seconds and `nanos` nanoseconds after the start of
    /// 1970, where chrono can represent it.
    pub fn from_unix(secs: i64, nanos: u32) -> (r: Option<Timestamp>)
        ensures
            r is Some <==> chrono_accepts(secs as int, nanos as int),
            r matches Some(t) ==> t.seconds() == secs && t.subsec_nanos() == nanos,
    {
        if chrono_check(secs, nanos) {
            Some(Timestamp { secs, nanos })
        } else {
            None
        }
    }

    /// The current instant, as the clock of the machine has it. Which
    /// instant that is depends on the clock and is not promised; what holds
    /// of every reading is that chrono can represent it, so that it can be
    /// written and taken apart like any other `Timestamp`.
    pub fn now() -> (t: Timestamp)
        ensures
            chrono_accepts(t.seconds(), t.subsec_nanos()),
    {
        let (secs, nanos) = chrono_now();
        Timestamp { secs, nanos }
    }

    /// Whole seconds since 1970-01-01T00:00:00Z.
    pub fn secs(&self) -> (s: i64)
        ensures
            s == self.seconds(),
    {
        self.secs
    }

    /// Nanoseconds after the whole second.
    pub fn nanos(&self) -> (n: u32)
        ensures
            n == self.subsec_nanos(),
    {
        self.nanos
    }

    /// The instant in RFC 3339 form, as in `2024-12-20T00:00:00Z`.
    pub fn to_rfc3339(&self) -> (s: String)
        ensures
            s@ == rfc3339_text(self.seconds(), self.subsec_nanos()),
    {
        proof {
            use_type_invariant(self);
        }
        chrono_rfc3339(self.secs, self.nanos)
    }

    /// The instant as chrono displays it, as in `2024-12-20 00:00:00 UTC`.
    pub fn to_string(&self) -> (s: String)
        ensures
            s@ == display_text(self.seconds(), self.subsec_nanos()),
    {
        proof {
            use_type_invariant(self);
        }
        chrono_display(self.secs, self.nanos)
    }

    /// The date of the instant without separators, as in `20241220`.
    pub fn compact_date(&self) -> (s: String)
        ensures
            s@ == strftime_text(self.seconds(), self.subsec_nanos(), COMPACT_DATE@),
    {
        proof {
            use_type_invariant(self);
        }
        chrono_format(self.secs, self.nanos, COMPACT_DATE)
    }

    /// The date of the instant with dashes, as in `2024-12-20`.
    pub fn dashed_date(&self) -> (s: String)
        ensures
            s@ == strftime_text(self.seconds(), self.subsec_nanos(), DASHED_DATE@),
    {
        proof {
            use_type_invariant(self);
        }
        chrono_format(self.secs, self.nanos, DASHED_DATE)
    }
}

} // verus!
