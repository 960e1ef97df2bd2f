//! Instants in UTC: seconds and nanoseconds since the Unix epoch, and the texts
//! that `chrono` writes for them.

use crate::order::before;
use vstd::prelude::*;

verus! {

/// The first second that `chrono` can name: January 1st, 262144 BCE.
pub const FIRST_SECOND: i64 = -8_334_601_228_800;

/// The last second that `chrono` can name: December 31st, 262142 CE.
pub const LAST_SECOND: i64 = 8_210_266_876_799;

/// The first second of the year 0.
pub const YEAR_ZERO: i64 = -62_167_219_200;

/// The last second of the year 9999.
pub const YEAR_9999_END: i64 = 253_402_300_799;

pub const NANOS_PER_SECOND: u32 = 1_000_000_000;

/// A point in time.
pub struct InstantView {
    pub secs: int,
    pub nanos: int,
}

/// Whether `chrono` can name the second `secs`.
pub open spec fn nameable(secs: int) -> bool {
    FIRST_SECOND <= secs <= LAST_SECOND
}

/// A point in time between the first and the last second that `chrono` can name.
#[derive(Debug, Clone, Copy)]
pub struct Timestamp {
    secs: i64,
    nanos: u32,
}

impl View for Timestamp {
    type V = InstantView;

    closed spec fn view(&self) -> InstantView {
        InstantView { secs: self.secs as int, nanos: self.nanos as int }
    }
}

/// The start of the second `secs`, or of the nearest that `chrono` can name.
pub open spec fn nearest_second(secs: i64) -> InstantView {
    InstantView {
        secs: if secs < FIRST_SECOND {
            FIRST_SECOND as int
        } else if secs > LAST_SECOND {
            LAST_SECOND as int
        } else {
            secs as int
        },
        nanos: 0,
    }
}

/// The nanoseconds from the epoch to `t`, or 0 where they are no `i64`.
pub open spec fn nanos_or_zero(t: InstantView) -> int {
    let n = t.secs * 1_000_000_000 + t.nanos;
    if i64::MIN <= n <= i64::MAX {
        n
    } else {
        0
    }
}

impl Timestamp {
    #[verifier::type_invariant]
    spec fn valid(self) -> bool {
        nameable(self.secs as int) && self.nanos < NANOS_PER_SECOND
    }

    /// The present instant.
    pub fn now() -> (now: Timestamp)
        ensures
            nameable(now@.secs),
            0 <= now@.nanos < NANOS_PER_SECOND,
    {
        let now: Timestamp = utc_now();
        proof {
            use_type_invariant(&now);
        }
        now
    }

    /// The start of the second `secs`, where `chrono` can name it.
    pub fn from_epoch(secs: i64) -> (at: Option<Timestamp>)
        ensures
            at is Some <==> nameable(secs as int),
            at matches Some(t) ==> t@ == (InstantView { secs: secs as int, nanos: 0 }),
    {
        if has_utc_second(secs) {
            Some(Timestamp { secs, nanos: 0 })
        } else {
            None
        }
    }

    /// The start of the second `secs`, or of the nearest that `chrono` can name.
    pub fn nearest(secs: i64) -> (at: Timestamp)
        ensures
            at@ == nearest_second(secs),
    {
        match Timestamp::from_epoch(secs) {
            Some(at) => at,
            None => if secs < FIRST_SECOND {
                Timestamp { secs: FIRST_SECOND, nanos: 0 }
            } else {
                Timestamp { secs: LAST_SECOND, nanos: 0 }
            },
        }
    }

    /// Whole seconds since the epoch.
    pub fn secs(&self) -> (secs: i64)
        ensures
            secs == self@.secs,
    {
        self.secs
    }

    /// The whole seconds since the epoch a day before.
    pub fn day_before(&self) -> (secs: i64)
        ensures
            secs == self@.secs - 86_400,
    {
        proof {
            use_type_invariant(self);
        }
        self.secs - 86_400
    }

    /// The nanoseconds from the epoch, or 0 where they are no `i64`.
    pub fn nanos_since_epoch(&self) -> (n: i64)
        ensures
            n == nanos_or_zero(self@),
    {
        let n: i128 = self.secs as i128 * 1_000_000_000 + self.nanos as i128;
        if -0x8000_0000_0000_0000 <= n && n <= 0x7fff_ffff_ffff_ffff {
            n as i64
        } else {
            0
        }
    }

    /// The RFC 3339 text of the instant.
    pub fn to_rfc3339(&self) -> (text: String)
        ensures
            text@ == instant_text(self@),
    {
        proof {
            use_type_invariant(self);
        }
        rfc3339_text(self.secs, self.nanos)
    }

    /// The text of the instant in one of the two forms of file names.
    pub fn stamp(&self, form: StampForm) -> (text: String)
        ensures
            text@ == stamp_text(self@, form),
            form == StampForm::Hour ==> forall|earlier: InstantView|
                in_earlier_hour(earlier, self@) ==> {
                    &&& before(#[trigger] stamp_text(earlier, form), text@)
                    &&& stamp_text(earlier, form).len() == text@.len()
                },
    {
        proof {
            use_type_invariant(self);
        }
        let text: String = match form {
            StampForm::Hour => utc_text(self.secs, "%Y%m%dT%H"),
            StampForm::Second => utc_text(self.secs, "%Y%m%dT%H%M%S"),
        };
        text
    }
}

/// The RFC 3339 text of an instant: seconds, the shortest of no, three, six or
/// nine decimals, and `Z`.
pub open spec fn instant_text(t: InstantView) -> Seq<char> {
    rfc3339(t.secs as i64, t.nanos as u32)
}

/// How an instant appears in a file name.
#[derive(Debug, Clone, Copy, PartialEq, Eq, Structural)]
pub enum StampForm {
    /// Year, month, day and hour.
    Hour,
    /// Year, month, day, hour, minute and second.
    Second,
}

/// The text of an instant in a file name.
pub open spec fn stamp_text(t: InstantView, form: StampForm) -> Seq<char> {
    match form {
        StampForm::Hour => utc_format(t.secs as i64, "%Y%m%dT%H"@),
        StampForm::Second => utc_format(t.secs as i64, "%Y%m%dT%H%M%S"@),
    }
}

/// Both instants lie in the years 0 to 9999, and the hour of `a` is over before
/// that of `b` begins.
pub open spec fn in_earlier_hour(a: InstantView, b: InstantView) -> bool {
    &&& YEAR_ZERO <= a.secs
    &&& a.secs / 3600 < b.secs / 3600
    &&& b.secs <= YEAR_9999_END
}

// ---------------------------------------------------------------------------
// chrono
// ---------------------------------------------------------------------------

/// `std::time::SystemTime::now`, taken over by `chrono` as a `DateTime`: some
/// instant that `chrono` can name, with less than a second of nanoseconds, also
/// where the clock stands before 1970. Which one is left unsaid: it is the time
/// of the call. It would panic only where the clock stood outside the half a
/// million years that `chrono` can name.
#[verifier::external_body]
fn utc_now() -> (now: Timestamp) {
    let now = chrono::DateTime::<chrono::Utc>::from(std::time::SystemTime::now());
    Timestamp { secs: now.timestamp(), nanos: now.timestamp_subsec_nanos() }
}

/// `chrono::TimeZone::timestamp_opt` for UTC: it yields an instant for exactly
/// the seconds from the first to the last that `chrono` can name.
#[verifier::external_body]
fn has_utc_second(secs: i64) -> (has: bool)
    ensures
        has == nameable(secs as int),
{
    chrono::TimeZone::timestamp_opt(&chrono::Utc, secs, 0).single().is_some()
}

/// The RFC 3339 text that `chrono` writes for an instant in UTC.
pub uninterp spec fn rfc3339(secs: i64, nanos: u32) -> Seq<char>;

/// `chrono::DateTime::to_rfc3339_opts` in UTC, with the shortest of no, three,
/// six or nine decimals and `Z`: the text depends on the instant alone.
#[verifier::external_body]
fn rfc3339_text(secs: i64, nanos: u32) -> (text: String)
    requires
        nameable(secs as int),
        nanos < NANOS_PER_SECOND,
    ensures
        text@ == rfc3339(secs, nanos),
{
    chrono::DateTime::from_timestamp(secs, nanos).unwrap().to_rfc3339_opts(
        chrono::SecondsFormat::AutoSi,
        true,
    )
}

/// The text that `chrono` writes for a second in UTC under a pattern.
pub uninterp spec fn utc_format(secs: i64, pattern: Seq<char>) -> Seq<char>;

/// `chrono::DateTime::format` in UTC: the text depends on the second and the
/// pattern alone. Under the pattern of the hour, between the years 0 and 9999,
/// it is four digits of the year and two each of the month, the day and the
/// hour, so that the texts of earlier hours come before it and are as long.
#[verifier::external_body]
fn utc_text(secs: i64, pattern: &str) -> (text: String)
    requires
        nameable(secs as int),
        pattern@ == "%Y%m%dT%H"@ || pattern@ == "%Y%m%dT%H%M%S"@,
    ensures
        text@ == utc_format(secs, pattern@),
        pattern@ == "%Y%m%dT%H"@ && secs <= YEAR_9999_END ==> forall|s: i64|
            YEAR_ZERO <= s && s as int / 3600 < secs as int / 3600 ==> {
                &&& before(#[trigger] utc_format(s, pattern@), text@)
                &&& utc_format(s, pattern@).len() == text@.len()
            },
{
    chrono::DateTime::from_timestamp(secs, 0).unwrap().format(pattern).to_string()
}

/// An instant is counted in nanoseconds where an `i64` can hold the count, a second
/// having a billion, and else as none.
pub proof fn law_nanoseconds(t: InstantView)
    ensures
        ({
            let count = 1_000_000_000 * t.secs + t.nanos;
            &&& -9_223_372_036_854_775_808 <= count <= 9_223_372_036_854_775_807
                ==> nanos_or_zero(t) == count
            &&& count < -9_223_372_036_854_775_808 || count > 9_223_372_036_854_775_807
                ==> nanos_or_zero(t) == 0
        }),
{
}

/// A second that the clock can name is kept; one before them becomes the first and
/// one behind them the last.
pub proof fn law_nearest_second(secs: i64)
    ensures
        nearest_second(secs).nanos == 0,
        nameable(nearest_second(secs).secs),
        nameable(secs as int) ==> nearest_second(secs).secs == secs,
        secs < FIRST_SECOND ==> nearest_second(secs).secs == FIRST_SECOND,
        secs > LAST_SECOND ==> nearest_second(secs).secs == LAST_SECOND,
        nameable(secs as int) <==> -8_334_601_228_800 <= secs <= 8_210_266_876_799,
{
}

/// A time in a file name is the one that its form says: to the hour, or to the
/// second.
pub proof fn law_forms_of_a_stamp(t: InstantView)
    ensures
        stamp_text(t, StampForm::Hour) == utc_format(t.secs as i64, "%Y%m%dT%H"@),
        stamp_text(t, StampForm::Second) == utc_format(t.secs as i64, "%Y%m%dT%H%M%S"@),
        instant_text(t) == rfc3339(t.secs as i64, t.nanos as u32),
{
}

}
