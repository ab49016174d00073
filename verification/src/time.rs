//! Points in time: reading and writing them as RFC 3339 texts, and how far apart they are.
use vstd::prelude::*;

verus! {

/// The first second of the range of dates.
pub const FIRST_SECOND: i64 = -8_334_601_228_800;

/// The last second of the range of dates.
pub const LAST_SECOND: i64 = 8_210_266_876_799;

/// The first second of the year 0.
pub const FIRST_FOUR_DIGIT_SECOND: i64 = -62_167_219_200;

/// The last second of the year 9999.
pub const LAST_FOUR_DIGIT_SECOND: i64 = 253_402_300_799;

/// The nanoseconds of one second.
pub const SECOND: u32 = 1_000_000_000;

/// A point in time: the seconds since 1970-01-01T00:00:00Z, leap seconds not counted, and the
/// nanoseconds into that second. In a leap second, which can only follow the last second of a
/// minute, the nanoseconds run on past those of one second.
#[derive(Debug, Clone, Copy, PartialEq, Eq, Structural)]
pub struct Timestamp {
    pub secs: i64,
    pub nanos: u32,
}

impl Timestamp {
    /// Whether this is a point in time that a calendar date denotes.
    pub open spec fn wf(self) -> bool {
        &&& FIRST_SECOND <= self.secs <= LAST_SECOND
        &&& self.nanos < 2 * SECOND
        &&& self.nanos >= SECOND ==> (self.secs as int) % 60 == 59
    }

    /// Whether this point in time comes strictly before `other`.
    pub open spec fn earlier(self, other: Timestamp) -> bool {
        self.secs < other.secs || (self.secs == other.secs && self.nanos < other.nanos)
    }

    /// Whether the year has four digits, as RFC 3339 wants it.
    pub open spec fn has_four_digit_year(self) -> bool {
        FIRST_FOUR_DIGIT_SECOND <= self.secs <= LAST_FOUR_DIGIT_SECOND
    }

    pub fn is_wf(&self) -> (r: bool)
        ensures
            r == self.wf(),
    {
        if self.secs < FIRST_SECOND || self.secs > LAST_SECOND || self.nanos >= 2_000_000_000 {
            return false;
        }
        if self.nanos < 1_000_000_000 {
            return true;
        }
        // The offset is a whole number of minutes and makes the dividend positive.
        let shifted: i64 = self.secs + 8_334_601_228_800;
        proof {
            assert((self.secs as int + 8_334_601_228_800) % 60 == (self.secs as int) % 60);
        }
        shifted % 60 == 59
    }

    pub fn is_earlier(&self, other: &Timestamp) -> (r: bool)
        ensures
            r == self.earlier(*other),
    {
        self.secs < other.secs || (self.secs == other.secs && self.nanos < other.nanos)
    }
}

/// `n / d` rounded toward zero.
pub open spec fn toward_zero(n: int, d: int) -> int {
    if n >= 0 {
        n / d
    } else {
        -((-n) / d)
    }
}

/// The whole seconds from `from` to `to`, a started second not counted. A leap second counts
/// where the clock times of the two lie on different sides of it.
pub open spec fn seconds_between(from: Timestamp, to: Timestamp) -> int {
    let clock_from = (from.secs as int) % 86_400;
    let clock_to = (to.secs as int) % 86_400;
    let leap: int = if clock_to > clock_from && from.nanos >= SECOND {
        1
    } else if clock_to < clock_from && to.nanos >= SECOND {
        -1
    } else {
        0
    };
    toward_zero(
        (to.secs - from.secs + leap) * 1_000_000_000 + (to.nanos - from.nanos),
        1_000_000_000,
    )
}

/// The point in time that `text` denotes in the notation of RFC 3339, as seconds and
/// nanoseconds, or `None` where it is no such text. This is what
/// `chrono::DateTime::parse_from_rfc3339` makes of it.
pub uninterp spec fn rfc3339_instant(text: Seq<char>) -> Option<(i64, u32)>;

/// The RFC 3339 text of a point in time in UTC, given as seconds and nanoseconds, without
/// fractions of a second and with a `Z` for the offset. This is what
/// `chrono::DateTime::to_rfc3339_opts` writes.
pub uninterp spec fn rfc3339_text(secs: i64, nanos: u32) -> Seq<char>;

/// The point in time that `text` denotes, if any.
pub open spec fn instant_of(text: Seq<char>) -> Option<Timestamp> {
    match rfc3339_instant(text) {
        Some((secs, nanos)) => Some(Timestamp { secs, nanos }),
        None => None,
    }
}

/// `chrono::DateTime::parse_from_rfc3339`, taken to UTC. What it accepts and the point in time
/// that it reads are named, not described; what it reads always lies in the range of dates.
#[verifier::external_body]
pub(crate) fn parse_ts(value: &str) -> (r: Option<Timestamp>)
    ensures
        match r {
            Some(at) => rfc3339_instant(value@) == Some((at.secs, at.nanos)) && at.wf(),
            None => rfc3339_instant(value@) is None,
        },
{
    let parsed = chrono::DateTime::parse_from_rfc3339(value).ok()?.with_timezone(&chrono::Utc);
    Some(Timestamp { secs: parsed.timestamp(), nanos: parsed.timestamp_subsec_nanos() })
}

/// `chrono::DateTime::to_rfc3339_opts` with whole seconds and a `Z`. The text is named, not
/// described, but for this: it is never empty, and where the year has four digits and the second is no leap second, reading the
/// text back gives the same second.
#[verifier::external_body]
pub(crate) fn format_ts(at: Timestamp) -> (text: String)
    requires
        at.wf(),
    ensures
        text@ == rfc3339_text(at.secs, at.nanos),
        text@.len() > 0,
        at.has_four_digit_year() && at.nanos < SECOND ==> rfc3339_instant(text@) == Some(
            (at.secs, 0u32),
        ),
{
    let date: chrono::DateTime<chrono::Utc> = chrono::DateTime::from_timestamp(at.secs, at.nanos)
        .unwrap();
    date.to_rfc3339_opts(chrono::SecondsFormat::Secs, true)
}

/// `chrono::DateTime::signed_duration_since`, in whole seconds as `num_seconds` counts them.
#[verifier::external_body]
pub(crate) fn seconds_since(to: Timestamp, from: Timestamp) -> (r: i64)
    requires
        to.wf(),
        from.wf(),
    ensures
        r == seconds_between(from, to),
{
    let later: chrono::DateTime<chrono::Utc> = chrono::DateTime::from_timestamp(to.secs, to.nanos)
        .unwrap();
    let start: chrono::DateTime<chrono::Utc> = chrono::DateTime::from_timestamp(
        from.secs,
        from.nanos,
    ).unwrap();
    later.signed_duration_since(start).num_seconds()
}

/// `chrono::Utc::now`: the time of the system clock, which is never in a leap second. A clock
/// that stands before 1970 makes it panic.
#[verifier::external_body]
pub(crate) fn clock_now() -> (at: Timestamp)
    ensures
        at.wf(),
        at.secs >= 0,
        at.nanos < SECOND,
{
    let now = chrono::Utc::now();
    Timestamp { secs: now.timestamp(), nanos: now.timestamp_subsec_nanos() }
}

/// Whether `at` is a point in time that a system clock can show: not before 1970, and in no leap
/// second.
pub open spec fn clock_can_show(at: Timestamp) -> bool {
    at.wf() && at.secs >= 0 && at.nanos < SECOND
}

/// Whether `text` is the RFC 3339 text of some point in time that a system clock can show.
pub open spec fn is_clock_text(text: Seq<char>) -> bool {
    exists|at: Timestamp|
        #![trigger rfc3339_text(at.secs, at.nanos)]
        clock_can_show(at) && text == rfc3339_text(at.secs, at.nanos)
}

/// The time of the system clock.
pub fn read_clock() -> (at: Timestamp)
    ensures
        at.wf(),
        at.secs >= 0,
        at.nanos < SECOND,
{
    clock_now()
}

/// The time of the system clock as an RFC 3339 text in UTC, in whole seconds.
pub fn now_rfc3339() -> (text: String)
    ensures
        is_clock_text(text@),
        text@.len() > 0,
{
    let at = clock_now();
    format_ts(at)
}

/// `std::time::SystemTime::elapsed` of the epoch: the seconds and nanoseconds since 1970, or `None`
/// where the system clock stands before that. Nothing is claimed of it but that the nanoseconds are
/// less than a second.
#[verifier::external_body]
fn since_epoch() -> (r: Option<(u64, u32)>)
    ensures
        match r {
            Some((_, nanos)) => nanos < SECOND,
            None => true,
        },
{
    match std::time::UNIX_EPOCH.elapsed() {
        Ok(elapsed) => Some((elapsed.as_secs(), elapsed.subsec_nanos())),
        Err(_) => None,
    }
}

/// The nanoseconds into the second, given the time since 1970; 0 where the clock stands before
/// that.
pub fn nanos_into_second(since: Option<(u64, u32)>) -> (nanos: u32)
    ensures
        nanos == (match since {
            Some((_, nanos)) => nanos,
            None => 0u32,
        }),
{
    match since {
        Some((_, nanos)) => nanos,
        None => 0,
    }
}

/// The nanoseconds into the second that the system clock shows; 0 where it stands before 1970.
pub(crate) fn clock_nanos() -> (nanos: u32)
    ensures
        nanos < SECOND,
{
    nanos_into_second(since_epoch())
}

/// From the same point in time no second passes.
pub proof fn no_time_between_equals(at: Timestamp)
    ensures
        seconds_between(at, at) == 0,
{
}

/// Away from leap seconds, the whole seconds between two points in time are the difference of
/// their distances from the epoch, rounded toward zero.
pub proof fn seconds_between_is_the_rounded_difference(from: Timestamp, to: Timestamp)
    requires
        from.nanos < SECOND,
        to.nanos < SECOND,
    ensures
        seconds_between(from, to) == toward_zero(
            (to.secs * 1_000_000_000 + to.nanos) - (from.secs * 1_000_000_000 + from.nanos),
            1_000_000_000,
        ),
{
}

/// The time from one point to another is the time back with the sign turned.
pub proof fn the_way_back_takes_as_long(from: Timestamp, to: Timestamp)
    ensures
        seconds_between(from, to) == -seconds_between(to, from),
{
}

/// Away from leap seconds, a point in time that lies whole seconds later is that many seconds away,
/// and what is less than a second does not count.
pub proof fn whole_seconds_are_counted(from: Timestamp, to: Timestamp)
    requires
        from.nanos < 1_000_000_000,
        to.nanos < 1_000_000_000,
    ensures
        to.nanos == from.nanos ==> seconds_between(from, to) == to.secs - from.secs,
        to.nanos > from.nanos && to.secs >= from.secs ==> seconds_between(from, to) == to.secs
            - from.secs,
        to.nanos < from.nanos && to.secs > from.secs ==> seconds_between(from, to) == to.secs
            - from.secs - 1,
{
}

/// Within a day, a leap second takes no time of its own: what comes after it is as far away as from
/// the second in which it lies.
pub proof fn leap_seconds_take_no_time(leap: Timestamp, second: Timestamp, to: Timestamp)
    requires
        1_000_000_000 <= leap.nanos < 2_000_000_000,
        second.secs == leap.secs,
        second.nanos == leap.nanos - 1_000_000_000,
        to.nanos < 1_000_000_000,
        (to.secs as int) % 86_400 > (leap.secs as int) % 86_400,
    ensures
        seconds_between(leap, to) == seconds_between(second, to),
{
}

/// The earlier of two points in time has fewer seconds, or as many and fewer nanoseconds.
pub proof fn seconds_come_before_nanoseconds(a: Timestamp, b: Timestamp)
    ensures
        a.earlier(b) <==> a.secs < b.secs || (a.secs == b.secs && a.nanos < b.nanos),
{
}

/// A point in time lies in the years that can be counted, with less than a second beyond its full
/// seconds; in the last second of a minute it may be a leap second, with less than two.
pub proof fn points_in_time_are_bounded(at: Timestamp)
    ensures
        at.wf() && at.nanos >= 1_000_000_000 ==> (at.secs as int) % 60 == 59 && at.nanos
            < 2_000_000_000,
        -8_334_601_228_800 <= at.secs <= 8_210_266_876_799 && at.nanos < 1_000_000_000 ==> at.wf(),
        at.secs < -8_334_601_228_800 || at.secs > 8_210_266_876_799 ==> !at.wf(),
        -8_334_601_228_800 <= at.secs <= 8_210_266_876_799 && (at.secs as int) % 60 == 59
            && at.nanos < 2_000_000_000 ==> at.wf(),
        at.has_four_digit_year() <==> -62_167_219_200 <= at.secs <= 253_402_300_799,
        clock_can_show(at) <==> at.wf() && at.secs >= 0 && at.nanos < 1_000_000_000,
{
}

} // verus!
