//! The cells in which operators record what they do.
//!
//! A cell has one owner. Where several parties record into one metric, they hold
//! its handle with the set that owns it; a snapshot of a cell is a value of its own.
use vstd::prelude::*;
use std::time::Instant;
use chrono::{DateTime, Utc};
use crate::metrics::readable::{human_readable_count, human_readable_duration};
use crate::metrics::readable;
use crate::text::{owned, push_decimal};
use crate::text;

verus! {

/// `n` modulo the range of `usize`: the counters wrap around.
pub open spec fn wrapped(n: int) -> int {
    n % (usize::MAX + 1)
}

/// A number in range is not changed by wrapping around.
pub proof fn wrapped_in_range(n: int)
    requires
        0 <= n <= usize::MAX,
    ensures
        wrapped(n) == n,
{
    vstd::arithmetic::div_mod::lemma_small_mod(n as nat, (usize::MAX + 1) as nat);
}

/// `a + b`, wrapping around.
pub fn add_wrapping(a: usize, b: usize) -> (r: usize)
    ensures
        r == wrapped(a + b),
    opens_invariants none
    no_unwind
{
    let sum: u128 = a as u128 + b as u128;
    (sum % (usize::MAX as u128 + 1)) as usize
}

/// `a - b`, wrapping around.
pub fn sub_wrapping(a: usize, b: usize) -> (r: usize)
    ensures
        r == wrapped(a - b),
{
    if a >= b {
        a - b
    } else {
        let range: u128 = usize::MAX as u128 + 1;
        let r: usize = (range + a as u128 - b as u128) as usize;
        assert(wrapped(a - b) == r) by (nonlinear_arith)
            requires
                r == usize::MAX + 1 + a - b,
                0 <= a < b <= usize::MAX,
        ;
        r
    }
}

/// A level that was raised and then lowered by the same amount is as before, and
/// lowering a level by no more than it is subtracts.
pub proof fn raising_and_lowering_cancel(level: usize, n: usize)
    ensures
        wrapped(wrapped(level + n) - n) == level,
        n <= level ==> wrapped(level - n) == level - n,
{
    wrapped_in_range(level as int);
    let range = usize::MAX + 1;
    if level + n < range {
        wrapped_in_range(level + n);
    } else {
        vstd::arithmetic::div_mod::lemma_fundamental_div_mod_converse(
            level + n,
            range,
            1,
            level + n - range,
        );
        vstd::arithmetic::div_mod::lemma_fundamental_div_mod_converse(
            level - range,
            range,
            -1,
            level as int,
        );
    }
    if n <= level {
        wrapped_in_range(level - n);
    }
}

/// The kind of quantity a metric measures.
#[derive(Clone, Copy, Debug, PartialEq, Eq, Hash, PartialOrd, Ord, Structural)]
pub enum MetricCategory {
    Rows,
    Bytes,
    Timing,
    Uncategorized,
}

/// For whom a metric is meant.
#[derive(Clone, Copy, Debug, PartialEq, Eq, Hash, Structural)]
pub enum MetricType {
    Summary,
    Dev,
}

/// A counter that only grows, wrapping around at the end of its range.
#[derive(Debug, PartialEq, Eq, Structural)]
pub struct Count {
    pub value: usize,
}

impl Default for Count {
    fn default() -> (r: Self)
        ensures
            r.value == 0,
    {
        Count { value: 0 }
    }
}

impl Count {
    /// The count as it stands; what is recorded later does not show in it.
    pub fn snapshot(&self) -> (r: Self)
        ensures
            r == *self,
    {
        Count { value: self.value }
    }

    /// A counter at zero.
    pub fn new() -> (r: Self)
        ensures
            r.value == 0,
    {
        Count { value: 0 }
    }

    /// Counts `n` more.
    pub fn add(&mut self, n: usize)
        ensures
            final(self).value == wrapped(old(self).value + n),
    {
        self.value = add_wrapping(self.value, n);
    }

    /// What has been counted.
    pub fn value(&self) -> (r: usize)
        ensures
            r == self.value,
    {
        self.value
    }

    /// The count for people to read.
    pub fn to_string(&self) -> (r: String)
        ensures
            r@ == readable::count_text(self.value as int),
    {
        human_readable_count(self.value)
    }
}

/// A level that goes up and down.
#[derive(Debug, PartialEq, Eq, Structural)]
pub struct Gauge {
    pub value: usize,
}

impl Default for Gauge {
    fn default() -> (r: Self)
        ensures
            r.value == 0,
    {
        Gauge { value: 0 }
    }
}

impl Gauge {
    /// The level as it stands; what is recorded later does not show in it.
    pub fn snapshot(&self) -> (r: Self)
        ensures
            r == *self,
    {
        Gauge { value: self.value }
    }

    /// A level of zero.
    pub fn new() -> (r: Self)
        ensures
            r.value == 0,
    {
        Gauge { value: 0 }
    }

    /// Raises the level by `n`.
    pub fn add(&mut self, n: usize)
        ensures
            final(self).value == wrapped(old(self).value + n),
    {
        self.value = add_wrapping(self.value, n);
    }

    /// Lowers the level by `n`.
    pub fn sub(&mut self, n: usize)
        ensures
            final(self).value == wrapped(old(self).value - n),
    {
        self.value = sub_wrapping(self.value, n);
    }

    /// Raises the level to `n` where it is lower.
    pub fn set_max(&mut self, n: usize)
        ensures
            final(self).value == if old(self).value < n {
                n
            } else {
                old(self).value
            },
    {
        if self.value < n {
            self.value = n;
        }
    }

    /// Sets the level to `n` and returns the level before.
    pub fn set(&mut self, n: usize) -> (r: usize)
        ensures
            r == old(self).value,
            final(self).value == n,
    {
        let before: usize = self.value;
        self.value = n;
        before
    }

    /// The level.
    pub fn value(&self) -> (r: usize)
        ensures
            r == self.value,
    {
        self.value
    }

    /// The level in decimal.
    pub fn to_string(&self) -> (r: String)
        ensures
            r@ == text::decimal(self.value as nat),
    {
        text::decimal_string(self.value as u128)
    }
}

/// Time spent, in nanoseconds.
#[derive(Debug, PartialEq, Eq, Structural)]
pub struct Time {
    pub nanos: usize,
}

/// What a time of `before` nanoseconds becomes when `nanos` more were spent: at
/// least one nanosecond is added, so that a recorded time is never zero.
pub open spec fn time_after(before: usize, nanos: int) -> int {
    wrapped(before + if wrapped(nanos) == 0 { 1 } else { wrapped(nanos) })
}

/// What a time becomes when a timer with the given start is stopped at a reading
/// of the clock; a timer that does not run changes nothing.
pub open spec fn time_stopped(start: Option<Instant>, before: Time, now: Instant) -> Time {
    match start {
        Some(from) => Time {
            nanos: time_after(before.nanos, nanos_apart(from, now) as int) as usize,
        },
        None => before,
    }
}

/// `std::time::Instant`, a reading of the monotonic clock. It is carried through
/// and compared with another reading, never looked into.
#[verifier::external_type_specification]
#[verifier::external_body]
pub struct ExInstant(std::time::Instant);

/// The nanoseconds from one reading of the clock to another, zero where the
/// other is the earlier one.
pub uninterp spec fn nanos_apart(start: Instant, end: Instant) -> u128;

/// `Instant::now`: the current reading of the monotonic clock, of which nothing
/// is claimed but that it is given.
#[verifier::external_body]
fn clock_now() -> (r: Instant)
    opens_invariants none
    no_unwind
{
    Instant::now()
}

/// `Instant::saturating_duration_since`, in nanoseconds: a function of the two
/// readings alone. How many nanoseconds they are apart is left unsaid, as a
/// reading has no value of its own.
#[verifier::external_body]
fn nanos_between(start: &Instant, end: &Instant) -> (r: u128)
    ensures
        r == nanos_apart(*start, *end),
    opens_invariants none
    no_unwind
{
    end.saturating_duration_since(*start).as_nanos()
}

/// The current reading of the monotonic clock. Contracts that rest on the clock
/// speak of what this function gave.
pub fn clock_reading() -> (r: Instant)
    opens_invariants none
    no_unwind
{
    clock_now()
}

/// Whether `after` is what a time becomes when a timer with the given start is
/// stopped at a reading that the clock gives then; a timer that does not run
/// changes nothing.
pub open spec fn stopped_now(start: Option<Instant>, before: Time, after: Time) -> bool {
    match start {
        Some(from) => exists|now: Instant| #[trigger]
            call_ensures(clock_reading, (), now) && after == time_stopped(Some(from), before, now),
        None => after == before,
    }
}

impl Default for Time {
    fn default() -> (r: Self)
        ensures
            r.nanos == 0,
    {
        Time { nanos: 0 }
    }
}

impl Time {
    /// The time as it stands; what is recorded later does not show in it.
    pub fn snapshot(&self) -> (r: Self)
        ensures
            r == *self,
    {
        Time { nanos: self.nanos }
    }

    /// No time spent.
    pub fn new() -> (r: Self)
        ensures
            r.nanos == 0,
    {
        Time { nanos: 0 }
    }

    /// Adds the time from `start` to the present reading of the clock.
    pub fn add_elapsed(&mut self, start: &Instant)
        ensures
            stopped_now(Some(*start), *old(self), *final(self)),
        opens_invariants none
        no_unwind
    {
        let now: Instant = clock_reading();
        let nanos: u128 = nanos_between(start, &now);
        self.add_duration(nanos);
        assert(call_ensures(clock_reading, (), now));
        assert(*self == time_stopped(Some(*start), *old(self), now));
    }

    /// Adds a duration of `nanos` nanoseconds, or one nanosecond where that is
    /// zero.
    pub fn add_duration(&mut self, nanos: u128)
        ensures
            final(self).nanos == time_after(old(self).nanos, nanos as int),
        opens_invariants none
        no_unwind
    {
        let more: usize = (nanos % (usize::MAX as u128 + 1)) as usize;
        if more == 0 {
            self.nanos = add_wrapping(self.nanos, 1);
        } else {
            self.nanos = add_wrapping(self.nanos, more);
        }
    }

    /// Adds another time.
    pub fn add(&mut self, other: &Time)
        ensures
            final(self).nanos == time_after(old(self).nanos, other.nanos as int),
    {
        self.add_duration(other.nanos as u128);
    }

    /// The nanoseconds spent.
    pub fn value(&self) -> (r: usize)
        ensures
            r == self.nanos,
    {
        self.nanos
    }

    /// Starts a timer at the present reading of the clock. Nothing is recorded
    /// before it is stopped or goes out of scope.
    pub fn timer(&mut self) -> (r: ScopedTimerGuard<'_>)
        ensures
            r.inner matches Some(time) && *time == *old(self) && *final(time) == *final(self),
            exists|now: Instant| #[trigger]
                call_ensures(clock_reading, (), now) && r.start == Some(now),
    {
        let now: Instant = clock_reading();
        assert(call_ensures(clock_reading, (), now));
        self.timer_with(now)
    }

    /// Starts a timer at the given reading of the clock. Nothing is recorded
    /// before it is stopped or goes out of scope.
    pub fn timer_with(&mut self, now: Instant) -> (r: ScopedTimerGuard<'_>)
        ensures
            r.inner matches Some(time) && *time == *old(self) && *final(time) == *final(self),
            r.start == Some(now),
    {
        ScopedTimerGuard { inner: Some(self), start: Some(now) }
    }

    /// The time for people to read.
    pub fn to_string(&self) -> (r: String)
        ensures
            r@ == readable::duration_text(self.nanos as int),
    {
        human_readable_duration(self.nanos as u64)
    }
}

/// A timer of a [`Time`], running or stopped. Stopping a running timer adds the
/// time since its start; so does letting it go out of scope.
#[derive(Debug)]
pub struct ScopedTimerGuard<'a> {
    /// What the timer records into; nothing once the timer is used up.
    pub inner: Option<&'a mut Time>,
    /// When the timer was started; nothing while it is stopped.
    pub start: Option<Instant>,
}

impl<'a> ScopedTimerGuard<'a> {
    /// Whether the timer still records into something.
    pub open spec fn wf(&self) -> bool {
        self.inner is Some
    }

    /// The time as recorded so far.
    pub open spec fn recorded(&self) -> Time {
        *self.inner.unwrap()
    }

    /// Stops the timer and adds the time from its start to the present reading
    /// of the clock; a stopped timer adds nothing.
    pub fn stop(&mut self)
        requires
            old(self).wf(),
        ensures
            final(self).wf(),
            final(self).start is None,
            stopped_now(old(self).start, old(self).recorded(), final(self).recorded()),
            *final(final(self).inner.unwrap()) == *final(old(self).inner.unwrap()),
        opens_invariants none
        no_unwind
    {
        match (&mut self.inner, self.start) {
            (Some(time), Some(start)) => time.add_elapsed(&start),
            _ => {},
        }
        self.start = None;
    }

    /// Starts the timer anew at the present reading of the clock; the time since
    /// an earlier start is not recorded.
    pub fn restart(&mut self)
        ensures
            final(self).inner == old(self).inner,
            exists|now: Instant| #[trigger]
                call_ensures(clock_reading, (), now) && final(self).start == Some(now),
    {
        let now: Instant = clock_reading();
        assert(call_ensures(clock_reading, (), now));
        self.restart_with(now);
    }

    /// Starts the timer anew at the given reading of the clock; the time since
    /// an earlier start is not recorded.
    pub fn restart_with(&mut self, now: Instant)
        ensures
            final(self).inner == old(self).inner,
            final(self).start == Some(now),
    {
        self.start = Some(now);
    }

    /// Stops the timer for good and adds the time from its start to the present
    /// reading of the clock; a stopped timer adds nothing.
    pub fn done(self)
        requires
            self.wf(),
        ensures
            stopped_now(self.start, *old(self.inner.unwrap()), *final(self.inner.unwrap())),
    {
        let mut guard = self;
        guard.stop();
        let time = guard.inner.take();
    }

    /// Stops the timer at the given reading of the clock; a stopped timer adds
    /// nothing.
    pub fn stop_with(&mut self, end_time: &Instant)
        requires
            old(self).wf(),
        ensures
            final(self).wf(),
            final(self).start is None,
            final(self).recorded() == time_stopped(old(self).start, old(self).recorded(), *end_time),
            *final(final(self).inner.unwrap()) == *final(old(self).inner.unwrap()),
    {
        match (&mut self.inner, self.start) {
            (Some(time), Some(start)) => {
                let nanos: u128 = nanos_between(&start, end_time);
                time.add_duration(nanos);
            },
            _ => {},
        }
        self.start = None;
    }

    /// Stops the timer for good, at the given reading of the clock.
    pub fn done_with(self, end_time: &Instant)
        requires
            self.wf(),
        ensures
            *final(self.inner.unwrap()) == time_stopped(
                self.start,
                *old(self.inner.unwrap()),
                *end_time,
            ),
    {
        let mut guard = self;
        guard.stop_with(end_time);
        let time = guard.inner.take();
    }
}

impl<'a> Drop for ScopedTimerGuard<'a> {
    /// Going out of scope stops the timer, unless it is used up.
    fn drop(&mut self)
        ensures
            final(self).start is None || !old(self).wf(),
            old(self).wf() ==> final(self).wf() && stopped_now(
                old(self).start,
                old(self).recorded(),
                final(self).recorded(),
            ),
        opens_invariants none
        no_unwind
    {
        if let Some(_) = self.inner {
            self.stop();
        }
    }
}

/// A timer records its interval once: stopping it adds at least one nanosecond
/// and, but for that, exactly the time from its start, whatever moment it was made
/// at; stopping it again, however late, adds nothing.
pub proof fn an_interval_is_recorded_once(start: Instant, before: Time, now: Instant, later: Instant)
    requires
        before.nanos + nanos_apart(start, now) + 1 <= usize::MAX,
    ensures
        ({
            let after = time_stopped(Some(start), before, now);
            &&& after.nanos == before.nanos + if nanos_apart(start, now) == 0 {
                1
            } else {
                nanos_apart(start, now) as int
            }
            &&& after.nanos > before.nanos
            &&& time_stopped(None, after, later) == after
        }),
{
    wrapped_in_range(nanos_apart(start, now) as int);
    wrapped_in_range(
        before.nanos + if nanos_apart(start, now) == 0 {
            1
        } else {
            nanos_apart(start, now) as int
        },
    );
}

/// A running timer that is stopped and then stopped once more, or goes out of
/// scope, has recorded its interval once: the time from its start to the first
/// stop, and at least one nanosecond.
pub proof fn a_stopped_timer_records_nothing_more(
    start: Instant,
    before: Time,
    stopped: Time,
    gone: Time,
)
    requires
        stopped_now(Some(start), before, stopped),
        stopped_now(None, stopped, gone),
    ensures
        gone == stopped,
        exists|now: Instant| #[trigger]
            call_ensures(clock_reading, (), now) && gone == time_stopped(Some(start), before, now)
                && (before.nanos + nanos_apart(start, now) + 1 <= usize::MAX ==> gone.nanos
                > before.nanos),
{
    let now = choose|now: Instant| #[trigger]
        call_ensures(clock_reading, (), now) && stopped == time_stopped(Some(start), before, now);
    if before.nanos + nanos_apart(start, now) + 1 <= usize::MAX {
        an_interval_is_recorded_once(start, before, now, now);
    }
    assert(call_ensures(clock_reading, (), now));
}

/// A moment in Coordinated Universal Time: whole seconds since the Unix epoch,
/// and the nanoseconds after them.
#[derive(Clone, Copy, Debug, PartialEq, Eq, Structural)]
pub struct UtcTime {
    pub secs: i64,
    pub nanos: u32,
}

/// The text of a moment, or none when the calendar does not reach that far.
pub uninterp spec fn calendar_text(secs: i64, nanos: u32) -> Option<Seq<char>>;

/// `Utc::now`, as seconds and nanoseconds since the Unix epoch. The result
/// depends on the clock, so nothing is claimed of it.
#[verifier::external_body]
fn utc_now() -> (r: (i64, u32)) {
    let now: DateTime<Utc> = Utc::now();
    (now.timestamp(), now.timestamp_subsec_nanos())
}

/// `DateTime::from_timestamp`, then `Display` of the moment in Coordinated
/// Universal Time: the text is a function of the two numbers alone, and there
/// is none for a moment that the calendar does not have.
#[verifier::external_body]
fn calendar_string(secs: i64, nanos: u32) -> (r: Option<String>)
    ensures
        r.is_some() == calendar_text(secs, nanos).is_some(),
        r.is_some() ==> r.unwrap()@ == calendar_text(secs, nanos).unwrap(),
{
    DateTime::<Utc>::from_timestamp(secs, nanos).map(|moment| moment.to_string())
}

impl UtcTime {
    /// Whether `self` is before `other`.
    pub open spec fn before(self, other: UtcTime) -> bool {
        self.secs < other.secs || (self.secs == other.secs && self.nanos < other.nanos)
    }

    /// The nanoseconds since the Unix epoch, where a 64-bit number holds them.
    pub open spec fn nanos_since_epoch(self) -> Option<int> {
        let n = self.secs * 1_000_000_000 + self.nanos;
        if i64::MIN <= n <= i64::MAX {
            Some(n)
        } else {
            None
        }
    }

    /// The text of the moment; a moment that the calendar does not have renders
    /// as its seconds.
    pub open spec fn rendered(self) -> Seq<char> {
        match calendar_text(self.secs, self.nanos) {
            Some(t) => t,
            None => text::decimal_int(self.secs as int),
        }
    }

    /// The present moment. Contracts that rest on the calendar speak of what this
    /// function gave.
    pub fn now() -> (r: UtcTime) {
        let (secs, nanos) = utc_now();
        UtcTime { secs, nanos }
    }

    /// Whether `self` is before `other`.
    pub fn is_before(&self, other: &UtcTime) -> (r: bool)
        ensures
            r == self.before(*other),
    {
        self.secs < other.secs || (self.secs == other.secs && self.nanos < other.nanos)
    }

    /// The nanoseconds since the Unix epoch, where a 64-bit number holds them.
    pub fn timestamp_nanos_opt(&self) -> (r: Option<i64>)
        ensures
            r matches Some(n) ==> self.nanos_since_epoch() == Some(n as int),
            r is None ==> self.nanos_since_epoch() is None,
    {
        let n: i128 = self.secs as i128 * 1_000_000_000 + self.nanos as i128;
        if i64::MIN as i128 <= n && n <= i64::MAX as i128 {
            Some(n as i64)
        } else {
            None
        }
    }

    /// The text of the moment.
    pub fn to_string(&self) -> (r: String)
        ensures
            r@ == self.rendered(),
    {
        match calendar_string(self.secs, self.nanos) {
            Some(t) => t,
            None => {
                let mut out: String = String::new();
                text::push_decimal_int(&mut out, self.secs as i128);
                out
            },
        }
    }
}

/// A moment that is recorded once known.
#[derive(Debug, PartialEq, Eq, Structural)]
pub struct Timestamp {
    pub timestamp: Option<UtcTime>,
}

/// The earlier of two moments; a moment that is not known does not count.
pub open spec fn earlier(a: Option<UtcTime>, b: Option<UtcTime>) -> Option<UtcTime> {
    match (a, b) {
        (None, _) => b,
        (_, None) => a,
        (Some(x), Some(y)) => Some(
            if x.before(y) {
                x
            } else {
                y
            },
        ),
    }
}

/// The later of two moments; a moment that is not known does not count.
pub open spec fn later(a: Option<UtcTime>, b: Option<UtcTime>) -> Option<UtcTime> {
    match (a, b) {
        (None, _) => b,
        (_, None) => a,
        (Some(x), Some(y)) => Some(
            if x.before(y) {
                y
            } else {
                x
            },
        ),
    }
}

/// The text of a moment that may not be known.
pub open spec fn timestamp_text(t: Option<UtcTime>) -> Seq<char> {
    match t {
        None => "NONE"@,
        Some(moment) => moment.rendered(),
    }
}

impl Default for Timestamp {
    fn default() -> (r: Self)
        ensures
            r.timestamp is None,
    {
        Timestamp { timestamp: None }
    }
}

impl Timestamp {
    /// The moment as it stands; what is recorded later does not show in it.
    pub fn snapshot(&self) -> (r: Self)
        ensures
            r == *self,
    {
        Timestamp { timestamp: self.timestamp }
    }

    /// A moment that is not known yet.
    pub fn new() -> (r: Self)
        ensures
            r.timestamp is None,
    {
        Timestamp { timestamp: None }
    }

    /// Records the present moment.
    pub fn record(&mut self)
        ensures
            exists|now: UtcTime| #[trigger]
                call_ensures(UtcTime::now, (), now) && final(self).timestamp == Some(now),
    {
        let now: UtcTime = UtcTime::now();
        assert(call_ensures(UtcTime::now, (), now));
        self.set(now);
    }

    /// Records the given moment.
    pub fn set(&mut self, now: UtcTime)
        ensures
            final(self).timestamp == Some(now),
    {
        self.timestamp = Some(now);
    }

    /// The moment, if it is known.
    pub fn value(&self) -> (r: Option<UtcTime>)
        ensures
            r == self.timestamp,
    {
        self.timestamp
    }

    /// Keeps the earlier of the two moments.
    pub fn update_to_min(&mut self, other: &Timestamp)
        ensures
            final(self).timestamp == earlier(old(self).timestamp, other.timestamp),
    {
        match (self.timestamp, other.timestamp) {
            (None, v) => {
                self.timestamp = v;
            },
            (_, None) => {},
            (Some(v1), Some(v2)) => {
                if !v1.is_before(&v2) {
                    self.timestamp = Some(v2);
                }
            },
        }
    }

    /// Keeps the later of the two moments.
    pub fn update_to_max(&mut self, other: &Timestamp)
        ensures
            final(self).timestamp == later(old(self).timestamp, other.timestamp),
    {
        match (self.timestamp, other.timestamp) {
            (None, v) => {
                self.timestamp = v;
            },
            (_, None) => {},
            (Some(v1), Some(v2)) => {
                if v1.is_before(&v2) {
                    self.timestamp = Some(v2);
                }
            },
        }
    }

    /// The text of the moment.
    pub fn to_string(&self) -> (r: String)
        ensures
            r@ == timestamp_text(self.timestamp),
    {
        match self.timestamp {
            None => owned("NONE"),
            Some(moment) => moment.to_string(),
        }
    }
}

/// The earlier and the later of two moments do not depend on the order of the
/// two, and are one of them.
pub proof fn earlier_and_later_commute(a: Option<UtcTime>, b: Option<UtcTime>)
    ensures
        earlier(a, b) == earlier(b, a),
        later(a, b) == later(b, a),
        earlier(a, b) == a || earlier(a, b) == b,
        later(a, b) == a || later(a, b) == b,
{
}

/// The earlier and the later of three moments do not depend on how they are
/// taken together.
pub proof fn earlier_and_later_associate(
    a: Option<UtcTime>,
    b: Option<UtcTime>,
    c: Option<UtcTime>,
)
    ensures
        earlier(earlier(a, b), c) == earlier(a, earlier(b, c)),
        later(later(a, b), c) == later(a, later(b, c)),
{
}

/// How much a scan could leave out.
#[derive(Debug, PartialEq, Eq, Structural)]
pub struct PruningMetrics {
    pub pruned: usize,
    pub matched: usize,
    pub fully_matched: usize,
}

/// The text of pruning figures.
pub open spec fn pruning_text(pruned: int, matched: int, fully_matched: int) -> Seq<char> {
    let head = readable::count_text(pruned + matched) + " total → "@ + readable::count_text(matched)
        + " matched"@;
    if fully_matched != 0 {
        head + " -> "@ + readable::count_text(fully_matched) + " fully matched"@
    } else {
        head
    }
}

impl Default for PruningMetrics {
    fn default() -> (r: Self)
        ensures
            r == (PruningMetrics { pruned: 0, matched: 0, fully_matched: 0 }),
    {
        PruningMetrics { pruned: 0, matched: 0, fully_matched: 0 }
    }
}

impl PruningMetrics {
    /// The figures as it stands; what is recorded later does not show in it.
    pub fn snapshot(&self) -> (r: Self)
        ensures
            r == *self,
    {
        PruningMetrics { pruned: self.pruned, matched: self.matched, fully_matched: self.fully_matched }
    }

    /// Nothing pruned and nothing matched.
    pub fn new() -> (r: Self)
        ensures
            r == (PruningMetrics { pruned: 0, matched: 0, fully_matched: 0 }),
    {
        PruningMetrics { pruned: 0, matched: 0, fully_matched: 0 }
    }

    /// Counts `n` more as pruned.
    pub fn add_pruned(&mut self, n: usize)
        ensures
            final(self).pruned == wrapped(old(self).pruned + n),
            final(self).matched == old(self).matched,
            final(self).fully_matched == old(self).fully_matched,
    {
        self.pruned = add_wrapping(self.pruned, n);
    }

    /// Counts `n` more as matched.
    pub fn add_matched(&mut self, n: usize)
        ensures
            final(self).matched == wrapped(old(self).matched + n),
            final(self).pruned == old(self).pruned,
            final(self).fully_matched == old(self).fully_matched,
    {
        self.matched = add_wrapping(self.matched, n);
    }

    /// Counts `n` more as fully matched.
    pub fn add_fully_matched(&mut self, n: usize)
        ensures
            final(self).fully_matched == wrapped(old(self).fully_matched + n),
            final(self).pruned == old(self).pruned,
            final(self).matched == old(self).matched,
    {
        self.fully_matched = add_wrapping(self.fully_matched, n);
    }

    /// Counts `n` less as matched.
    pub fn subtract_matched(&mut self, n: usize)
        ensures
            final(self).matched == wrapped(old(self).matched - n),
            final(self).pruned == old(self).pruned,
            final(self).fully_matched == old(self).fully_matched,
    {
        self.matched = sub_wrapping(self.matched, n);
    }

    /// What was pruned.
    pub fn pruned(&self) -> (r: usize)
        ensures
            r == self.pruned,
    {
        self.pruned
    }

    /// What was matched.
    pub fn matched(&self) -> (r: usize)
        ensures
            r == self.matched,
    {
        self.matched
    }

    /// What was fully matched.
    pub fn fully_matched(&self) -> (r: usize)
        ensures
            r == self.fully_matched,
    {
        self.fully_matched
    }

    /// The text of the figures.
    pub fn to_string(&self) -> (r: String)
        requires
            self.pruned + self.matched <= usize::MAX,
        ensures
            r@ == pruning_text(self.pruned as int, self.matched as int, self.fully_matched as int),
    {
        let mut out: String = human_readable_count(self.pruned + self.matched);
        out.append(" total → ");
        let matched: String = human_readable_count(self.matched);
        out.append(matched.as_str());
        out.append(" matched");
        if self.fully_matched != 0 {
            out.append(" -> ");
            let fully: String = human_readable_count(self.fully_matched);
            out.append(fully.as_str());
            out.append(" fully matched");
        }
        out
    }
}

/// How two ratios of different partitions are taken together.
#[derive(Clone, Copy, Debug, PartialEq, Eq, Structural)]
pub enum RatioMergeStrategy {
    AddPartAddTotal,
    AddPartSetTotal,
    SetPartAddTotal,
}

impl Default for RatioMergeStrategy {
    fn default() -> (r: Self)
        ensures
            r == RatioMergeStrategy::AddPartAddTotal,
    {
        RatioMergeStrategy::AddPartAddTotal
    }
}

/// A part of a total.
#[derive(Debug)]
pub struct RatioMetrics {
    pub part: usize,
    pub total: usize,
    pub merge_strategy: RatioMergeStrategy,
    pub display_raw_values: bool,
}

/// The percentage in hundredths of a percent, rounded to the nearest and up on
/// a tie; it wraps around where it is out of range.
pub open spec fn basis_points(part: int, total: int) -> int {
    wrapped((part * 10_000 + total / 2) / total)
}

/// Hundredths of a percent as a percentage, without trailing zeros.
pub open spec fn percent_text(points: int) -> Seq<char> {
    let whole = text::decimal((points / 100) as nat);
    let fraction = points % 100;
    if fraction == 0 {
        whole + "%"@
    } else if fraction % 10 == 0 {
        whole + "."@ + text::decimal((fraction / 10) as nat) + "%"@
    } else {
        whole + "."@ + text::decimal((fraction / 10) as nat) + text::decimal(
            (fraction % 10) as nat,
        ) + "%"@
    }
}

/// The text of a ratio: the percentage, and the two figures where they are
/// wanted.
pub open spec fn ratio_text(part: int, total: int, display_raw_values: bool) -> Seq<char> {
    let percent = if total == 0 {
        "N/A"@
    } else {
        percent_text(basis_points(part, total))
    };
    if !display_raw_values {
        percent
    } else if total == 0 {
        if part == 0 {
            percent + " (0/0)"@
        } else {
            percent + " ("@ + readable::count_text(part) + "/0)"@
        }
    } else {
        percent + " ("@ + readable::count_text(part) + "/"@ + readable::count_text(total) + ")"@
    }
}

impl PartialEq for RatioMetrics {
    fn eq(&self, other: &Self) -> (r: bool) {
        self.part == other.part && self.total == other.total && self.display_raw_values
            == other.display_raw_values
    }
}

impl vstd::std_specs::cmp::PartialEqSpecImpl for RatioMetrics {
    open spec fn obeys_eq_spec() -> bool {
        true
    }

    open spec fn eq_spec(&self, other: &Self) -> bool {
        self.part == other.part && self.total == other.total && self.display_raw_values
            == other.display_raw_values
    }
}

impl Default for RatioMetrics {
    fn default() -> (r: Self)
        ensures
            r == (RatioMetrics {
                part: 0,
                total: 0,
                merge_strategy: RatioMergeStrategy::AddPartAddTotal,
                display_raw_values: false,
            }),
    {
        RatioMetrics {
            part: 0,
            total: 0,
            merge_strategy: RatioMergeStrategy::AddPartAddTotal,
            display_raw_values: false,
        }
    }
}

/// What a ratio becomes when another is taken together with it.
pub open spec fn merged_ratio(a: RatioMetrics, b: RatioMetrics) -> RatioMetrics {
    RatioMetrics {
        part: match a.merge_strategy {
            RatioMergeStrategy::SetPartAddTotal => b.part,
            _ => wrapped(a.part + b.part) as usize,
        },
        total: match a.merge_strategy {
            RatioMergeStrategy::AddPartSetTotal => b.total,
            _ => wrapped(a.total + b.total) as usize,
        },
        ..a
    }
}

impl RatioMetrics {
    /// The ratio as it stands; what is recorded later does not show in it.
    pub fn snapshot(&self) -> (r: Self)
        ensures
            r == *self,
    {
        RatioMetrics {
            part: self.part,
            total: self.total,
            merge_strategy: self.merge_strategy,
            display_raw_values: self.display_raw_values,
        }
    }

    /// Nothing of nothing, to be added up and shown with its figures.
    pub fn new() -> (r: Self)
        ensures
            r == (RatioMetrics {
                part: 0,
                total: 0,
                merge_strategy: RatioMergeStrategy::AddPartAddTotal,
                display_raw_values: true,
            }),
    {
        RatioMetrics {
            part: 0,
            total: 0,
            merge_strategy: RatioMergeStrategy::AddPartAddTotal,
            display_raw_values: true,
        }
    }

    /// The same ratio with another merge strategy.
    pub fn with_merge_strategy(self, strategy: RatioMergeStrategy) -> (r: Self)
        ensures
            r == (RatioMetrics { merge_strategy: strategy, ..self }),
    {
        RatioMetrics { merge_strategy: strategy, ..self }
    }

    /// The same ratio, shown with or without its figures.
    pub fn with_display_raw_values(self, display_raw_values: bool) -> (r: Self)
        ensures
            r == (RatioMetrics { display_raw_values, ..self }),
    {
        RatioMetrics { display_raw_values, ..self }
    }

    /// Adds to the part.
    pub fn add_part(&mut self, n: usize)
        ensures
            *final(self) == (RatioMetrics {
                part: wrapped(old(self).part + n) as usize,
                ..*old(self)
            }),
    {
        self.part = add_wrapping(self.part, n);
    }

    /// Adds to the total.
    pub fn add_total(&mut self, n: usize)
        ensures
            *final(self) == (RatioMetrics {
                total: wrapped(old(self).total + n) as usize,
                ..*old(self)
            }),
    {
        self.total = add_wrapping(self.total, n);
    }

    /// Sets the part.
    pub fn set_part(&mut self, n: usize)
        ensures
            *final(self) == (RatioMetrics { part: n, ..*old(self) }),
    {
        self.part = n;
    }

    /// Sets the total.
    pub fn set_total(&mut self, n: usize)
        ensures
            *final(self) == (RatioMetrics { total: n, ..*old(self) }),
    {
        self.total = n;
    }

    /// The part.
    pub fn part(&self) -> (r: usize)
        ensures
            r == self.part,
    {
        self.part
    }

    /// The total.
    pub fn total(&self) -> (r: usize)
        ensures
            r == self.total,
    {
        self.total
    }

    /// How ratios of different partitions are taken together.
    pub fn merge_strategy(&self) -> (r: &RatioMergeStrategy)
        ensures
            *r == self.merge_strategy,
    {
        &self.merge_strategy
    }

    /// Whether the two figures are shown.
    pub fn display_raw_values(&self) -> (r: bool)
        ensures
            r == self.display_raw_values,
    {
        self.display_raw_values
    }

    /// Takes another ratio together with this one.
    pub fn merge(&mut self, other: &Self)
        ensures
            *final(self) == merged_ratio(*old(self), *other),
    {
        match self.merge_strategy {
            RatioMergeStrategy::AddPartAddTotal => {
                self.add_part(other.part);
                self.add_total(other.total);
            },
            RatioMergeStrategy::AddPartSetTotal => {
                self.add_part(other.part);
                self.set_total(other.total);
            },
            RatioMergeStrategy::SetPartAddTotal => {
                self.set_part(other.part);
                self.add_total(other.total);
            },
        }
    }

    /// The text of the ratio.
    pub fn to_string(&self) -> (r: String)
        ensures
            r@ == ratio_text(self.part as int, self.total as int, self.display_raw_values),
    {
        let mut out: String = String::new();
        if self.total == 0 {
            out.append("N/A");
        } else {
            let points: u128 = (self.part as u128 * 10_000 + self.total as u128 / 2)
                / self.total as u128;
            let points: u128 = points % (usize::MAX as u128 + 1);
            assert(points == basis_points(self.part as int, self.total as int));
            push_decimal(&mut out, points / 100);
            let fraction: u128 = points % 100;
            if fraction != 0 {
                out.append(".");
                push_decimal(&mut out, fraction / 10);
                if fraction % 10 != 0 {
                    push_decimal(&mut out, fraction % 10);
                }
            }
            out.append("%");
            assert(out@ == percent_text(points as int));
        }
        if self.display_raw_values {
            if self.total == 0 {
                if self.part == 0 {
                    out.append(" (0/0)");
                } else {
                    out.append(" (");
                    let part: String = human_readable_count(self.part);
                    out.append(part.as_str());
                    out.append("/0)");
                }
            } else {
                out.append(" (");
                let part: String = human_readable_count(self.part);
                out.append(part.as_str());
                out.append("/");
                let total: String = human_readable_count(self.total);
                out.append(total.as_str());
                out.append(")");
            }
        }
        assert(out@ == ratio_text(self.part as int, self.total as int, self.display_raw_values));
        out
    }
}

} // verus!
