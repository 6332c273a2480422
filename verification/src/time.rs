//! Time management for frame timing and game loops.
//!
//! Spans of time are [`Duration`] values: whole nanoseconds, up to the range
//! of `std::time::Duration` (`u64::MAX` seconds and 999,999,999 nanoseconds).

use std::time::Instant;
use vstd::prelude::*;

verus! {

/// Nanoseconds in a second.
pub const NANOS_PER_SEC: u128 = 1_000_000_000;

/// The longest span a [`Duration`] holds, in nanoseconds: `u64::MAX` seconds
/// and 999,999,999 nanoseconds.
pub const MAX_DURATION_NANOS: u128 = 18_446_744_073_709_551_615_999_999_999;

/// A span of time, in whole nanoseconds.
#[derive(Clone, Copy, Debug, PartialEq, Eq, Structural)]
pub struct Duration {
    nanos: u128,
}

impl View for Duration {
    type V = nat;

    /// The span in nanoseconds (never more than [`MAX_DURATION_NANOS`]).
    closed spec fn view(&self) -> nat {
        if self.nanos <= MAX_DURATION_NANOS {
            self.nanos as nat
        } else {
            MAX_DURATION_NANOS as nat
        }
    }
}

/// Every span lies within the range of [`Duration`].
pub proof fn lemma_duration_in_range(d: Duration)
    ensures
        d@ <= MAX_DURATION_NANOS,
{
}

impl Duration {
    /// A duration is never longer than [`MAX_DURATION_NANOS`].
    #[verifier::type_invariant]
    spec fn within_range(self) -> bool {
        self.nanos <= MAX_DURATION_NANOS
    }

    /// The empty span.
    pub fn zero() -> (d: Duration)
        ensures
            d@ == 0,
    {
        Duration { nanos: 0 }
    }

    /// A span of `secs` seconds and `nanos` nanoseconds; nanoseconds beyond a
    /// second carry over into the seconds.
    pub fn new(secs: u64, nanos: u32) -> (d: Duration)
        requires
            secs + nanos as int / NANOS_PER_SEC as int <= u64::MAX,
        ensures
            d@ == secs * NANOS_PER_SEC + nanos,
    {
        let total: u128 = secs as u128 * NANOS_PER_SEC + nanos as u128;
        assert(total <= MAX_DURATION_NANOS);
        Duration { nanos: total }
    }

    /// A span of `nanos` nanoseconds, within range.
    fn from_total_nanos(nanos: u128) -> (d: Duration)
        requires
            nanos <= MAX_DURATION_NANOS,
        ensures
            d@ == nanos,
    {
        Duration { nanos }
    }

    /// A span of whole seconds.
    pub fn from_secs(secs: u64) -> (d: Duration)
        ensures
            d@ == secs * NANOS_PER_SEC,
    {
        Duration { nanos: secs as u128 * NANOS_PER_SEC }
    }

    /// A span of whole milliseconds.
    pub fn from_millis(millis: u64) -> (d: Duration)
        ensures
            d@ == millis * 1_000_000,
    {
        Duration { nanos: millis as u128 * 1_000_000 }
    }

    /// A span of whole nanoseconds.
    pub fn from_nanos(nanos: u64) -> (d: Duration)
        ensures
            d@ == nanos,
    {
        Duration { nanos: nanos as u128 }
    }

    /// The span in nanoseconds, which never exceeds [`MAX_DURATION_NANOS`].
    pub fn as_nanos(&self) -> (n: u128)
        ensures
            n == self@,
            self@ <= MAX_DURATION_NANOS,
    {
        proof {
            use_type_invariant(self);
        }
        self.nanos
    }

    /// The whole seconds of the span.
    pub fn as_secs(&self) -> (s: u64)
        ensures
            s == self@ / NANOS_PER_SEC as nat,
    {
        proof {
            use_type_invariant(self);
        }
        (self.nanos / NANOS_PER_SEC) as u64
    }

    /// The nanoseconds of the span beyond its whole seconds.
    pub fn subsec_nanos(&self) -> (n: u32)
        ensures
            n == self@ % NANOS_PER_SEC as nat,
    {
        proof {
            use_type_invariant(self);
        }
        (self.nanos % NANOS_PER_SEC) as u32
    }

    /// Whether the span is empty.
    pub fn is_zero(&self) -> (b: bool)
        ensures
            b == (self@ == 0),
    {
        proof {
            use_type_invariant(self);
        }
        self.nanos == 0
    }

    /// The sum of two spans, or `None` where it is out of range.
    pub fn checked_add(&self, other: Duration) -> (r: Option<Duration>)
        ensures
            match r {
                Some(d) => d@ == self@ + other@,
                None => self@ + other@ > MAX_DURATION_NANOS,
            },
    {
        proof {
            use_type_invariant(self);
            use_type_invariant(other);
        }
        let total: u128 = self.nanos + other.nanos;
        if total <= MAX_DURATION_NANOS {
            Some(Duration { nanos: total })
        } else {
            None
        }
    }

    /// The difference of two spans, or the empty span where `other` is the
    /// longer one.
    pub fn saturating_sub(&self, other: Duration) -> (r: Duration)
        ensures
            r@ == (if self@ >= other@ {
                self@ - other@
            } else {
                0
            }),
    {
        proof {
            use_type_invariant(self);
            use_type_invariant(other);
        }
        if self.nanos >= other.nanos {
            Duration { nanos: self.nanos - other.nanos }
        } else {
            Duration { nanos: 0 }
        }
    }
}

/// A point in time, read from the monotonic clock of the machine.
#[verifier::external_type_specification]
#[verifier::external_body]
pub struct ExInstant(Instant);

/// Calls `std::time::Instant::now`. The instant depends on the clock, so
/// nothing is stated of it.
#[verifier::external_body]
fn instant_now() -> Instant {
    Instant::now()
}

/// The nanoseconds from the clock reading `earlier` to the clock reading
/// `later`, as `std::time::Instant::duration_since` gives them (none where
/// `earlier` is the later one).
pub uninterp spec fn instant_span(later: Instant, earlier: Instant) -> nat;

/// Calls `std::time::Instant::duration_since`, converting the span it returns
/// to nanoseconds. The span is a function of the two readings, named
/// [`instant_span`], and lies within the range of `std::time::Duration`.
#[verifier::external_body]
fn nanos_between(later: &Instant, earlier: &Instant) -> (n: u128)
    ensures
        n == instant_span(*later, *earlier),
        n <= MAX_DURATION_NANOS,
{
    later.duration_since(*earlier).as_nanos()
}

/// The sum of a sequence of spans, in nanoseconds.
pub open spec fn total_nanos(spans: Seq<nat>) -> nat
    decreases spans.len(),
{
    if spans.len() == 0 {
        0
    } else {
        total_nanos(spans.drop_last()) + spans.last()
    }
}

/// The frame history after recording a frame of `delta` nanoseconds: the
/// frame is appended and, where the history then exceeds `max` frames, its
/// oldest frame is dropped.
pub open spec fn history_after(history: Seq<nat>, delta: nat, max: nat) -> Seq<nat> {
    let pushed = history.push(delta);
    if pushed.len() > max {
        pushed.drop_first()
    } else {
        pushed
    }
}

/// The span from `earlier` to `later` nanoseconds, or none where `later`
/// comes first.
pub open spec fn span_between(later: nat, earlier: nat) -> nat {
    if later >= earlier {
        (later - earlier) as nat
    } else {
        0
    }
}

/// The abstract state of a [`TimeState`].
pub struct TimeView {
    /// Duration of the last frame, in nanoseconds.
    pub delta: nat,
    /// Time from startup to the last frame, in nanoseconds.
    pub elapsed: nat,
    /// Current frame number.
    pub frame_count: nat,
    /// Durations of the most recent frames, oldest first, in nanoseconds.
    pub history: Seq<nat>,
    /// Maximum number of frames kept in the history.
    pub max_history: nat,
}

impl TimeView {
    /// The state of a fresh time state.
    pub open spec fn initial() -> TimeView {
        TimeView {
            delta: 0,
            elapsed: 0,
            frame_count: 0,
            history: Seq::empty(),
            max_history: 60,
        }
    }

    /// The state after recording a frame of `delta` nanoseconds at `elapsed`
    /// nanoseconds since startup.
    pub open spec fn advanced(self, delta: nat, elapsed: nat) -> TimeView {
        TimeView {
            delta,
            elapsed,
            frame_count: self.frame_count + 1,
            history: history_after(self.history, delta, self.max_history),
            max_history: self.max_history,
        }
    }
}

/// Time state that tracks frame timing.
pub struct TimeState {
    /// Time when the application started.
    startup_time: Instant,
    /// Duration of the last frame.
    delta_time: Duration,
    /// Total elapsed time since startup.
    elapsed_time: Duration,
    /// Current frame number.
    frame_count: u64,
    /// Durations of the most recent frames, for FPS calculation.
    frame_time_history: Vec<Duration>,
    /// Maximum number of frames to keep in history.
    max_history: usize,
}

impl View for TimeState {
    type V = TimeView;

    closed spec fn view(&self) -> TimeView {
        TimeView {
            delta: self.delta_time@,
            elapsed: self.elapsed_time@,
            frame_count: self.frame_count as nat,
            history: self.frame_time_history@.map_values(|d: Duration| d@),
            max_history: self.max_history as nat,
        }
    }
}

impl TimeState {
    /// The history never holds more frames than its maximum.
    pub closed spec fn wf(&self) -> bool {
        self.frame_time_history@.len() <= self.max_history
    }

    /// The clock reading that elapsed time is measured from.
    pub closed spec fn start_instant(&self) -> Instant {
        self.startup_time
    }

    /// Create a new time state, measuring from the current clock reading.
    pub fn new() -> (t: TimeState)
        ensures
            t.wf(),
            t@ == TimeView::initial(),
    {
        Self::started_at(instant_now())
    }

    /// Create a new time state measuring from the clock reading `now`.
    pub fn started_at(now: Instant) -> (t: TimeState)
        ensures
            t.wf(),
            t@ == TimeView::initial(),
            t.start_instant() == now,
    {
        let t = TimeState {
            startup_time: now,
            delta_time: Duration::zero(),
            elapsed_time: Duration::zero(),
            frame_count: 0,
            frame_time_history: Vec::new(),
            max_history: 60,
        };
        assert(t@.history =~= Seq::<nat>::empty());
        t
    }

    /// Update the time state - call this once per frame. The time since
    /// startup is the span from the start reading to a reading of the clock;
    /// the frame's duration is what it adds to the time since startup of the
    /// last frame (none where the clock went back).
    pub fn update(&mut self)
        requires
            old(self).wf(),
            old(self)@.frame_count < u64::MAX,
        ensures
            final(self).wf(),
            exists|now: Instant|
                final(self)@.elapsed == instant_span(now, old(self).start_instant()),
            final(self)@ == old(self)@.advanced(
                span_between(final(self)@.elapsed, old(self)@.elapsed),
                final(self)@.elapsed,
            ),
            final(self).start_instant() == old(self).start_instant(),
    {
        self.update_at(instant_now());
    }

    /// Update the time state for a frame ending at the clock reading `now`.
    pub fn update_at(&mut self, now: Instant)
        requires
            old(self).wf(),
            old(self)@.frame_count < u64::MAX,
        ensures
            final(self).wf(),
            final(self)@ == old(self)@.advanced(
                span_between(instant_span(now, old(self).start_instant()), old(self)@.elapsed),
                instant_span(now, old(self).start_instant()),
            ),
            final(self).start_instant() == old(self).start_instant(),
    {
        let elapsed = Duration::from_total_nanos(nanos_between(&now, &self.startup_time));
        let delta = elapsed.saturating_sub(self.elapsed_time);
        self.record_frame(delta, elapsed);
    }

    /// Record a frame that took `delta` and ended `elapsed` after startup.
    pub fn record_frame(&mut self, delta: Duration, elapsed: Duration)
        requires
            old(self).wf(),
            old(self)@.frame_count < u64::MAX,
        ensures
            final(self).wf(),
            final(self)@ == old(self)@.advanced(delta@, elapsed@),
            final(self).start_instant() == old(self).start_instant(),
    {
        let ghost h0 = self@.history;
        self.delta_time = delta;
        self.elapsed_time = elapsed;
        self.frame_count = self.frame_count + 1;
        self.frame_time_history.push(delta);
        assert(self.frame_time_history@.map_values(|d: Duration| d@) =~= h0.push(delta@));
        if self.frame_time_history.len() > self.max_history {
            self.frame_time_history.remove(0);
            assert(self.frame_time_history@.map_values(|d: Duration| d@) =~= h0.push(
                delta@,
            ).drop_first());
        }
    }

    /// Get the time since the last frame.
    pub fn delta(&self) -> (d: Duration)
        ensures
            d@ == self@.delta,
    {
        self.delta_time
    }

    /// Get the total elapsed time since startup.
    pub fn elapsed(&self) -> (d: Duration)
        ensures
            d@ == self@.elapsed,
    {
        self.elapsed_time
    }

    /// Get the current frame number.
    pub fn frame_count(&self) -> (n: u64)
        ensures
            n == self@.frame_count,
    {
        self.frame_count
    }

    /// The durations of the most recent frames, oldest first.
    pub fn frame_times(&self) -> (r: &[Duration])
        ensures
            r@.map_values(|d: Duration| d@) == self@.history,
    {
        self.frame_time_history.as_slice()
    }

    /// The total duration of the frames in the history, or `None` where it is
    /// longer than a [`Duration`] holds.
    pub fn frame_time_total(&self) -> (r: Option<Duration>)
        ensures
            match r {
                Some(d) => d@ == total_nanos(self@.history),
                None => total_nanos(self@.history) > MAX_DURATION_NANOS,
            },
    {
        let ghost h = self@.history;
        let mut total = Duration::zero();
        let mut i: usize = 0;
        while i < self.frame_time_history.len()
            invariant
                i <= self.frame_time_history@.len(),
                h == self.frame_time_history@.map_values(|d: Duration| d@),
                total@ == total_nanos(h.take(i as int)),
            decreases self.frame_time_history@.len() - i,
        {
            assert(h.take(i + 1).drop_last() =~= h.take(i as int));
            match total.checked_add(self.frame_time_history[i]) {
                Some(t) => {
                    total = t;
                },
                None => {
                    proof {
                        lemma_total_nanos_prefix(h, i + 1);
                    }
                    return None;
                },
            }
            i = i + 1;
        }
        assert(h.take(i as int) =~= h);
        Some(total)
    }

    /// Reset the time state (useful for pause/resume functionality): it
    /// measures from the current clock reading on.
    pub fn reset(&mut self)
        requires
            old(self).wf(),
        ensures
            final(self).wf(),
            final(self)@ == TimeView::initial(),
    {
        self.restart_at(instant_now());
    }

    /// Reset the time state to measure from the clock reading `now` on.
    pub fn restart_at(&mut self, now: Instant)
        requires
            old(self).wf(),
        ensures
            final(self).wf(),
            final(self)@ == TimeView::initial(),
            final(self).start_instant() == now,
    {
        self.startup_time = now;
        self.delta_time = Duration::zero();
        self.elapsed_time = Duration::zero();
        self.frame_count = 0;
        self.frame_time_history.clear();
        self.max_history = 60;
        assert(self@.history =~= Seq::<nat>::empty());
    }

    /// Check if we're in the first frame.
    pub fn is_first_frame(&self) -> (b: bool)
        ensures
            b == (self@.frame_count <= 1),
    {
        self.frame_count <= 1
    }
}

/// A step of a time state: a recorded frame, or a reset.
pub enum TimeStep {
    /// A frame of `delta` nanoseconds, ending `elapsed` nanoseconds after
    /// the start (`update` or `record_frame`).
    Frame { delta: nat, elapsed: nat },
    /// `reset`.
    Reset,
}

/// The state of a fresh time state after a sequence of steps.
pub open spec fn time_after(steps: Seq<TimeStep>) -> TimeView
    decreases steps.len(),
{
    if steps.len() == 0 {
        TimeView::initial()
    } else {
        match steps.last() {
            TimeStep::Frame { delta, elapsed } => time_after(steps.drop_last()).advanced(
                delta,
                elapsed,
            ),
            TimeStep::Reset => TimeView::initial(),
        }
    }
}

/// The number of frames recorded since the last reset.
pub open spec fn frames_since_reset(steps: Seq<TimeStep>) -> nat
    decreases steps.len(),
{
    if steps.len() == 0 {
        0
    } else {
        match steps.last() {
            TimeStep::Frame { .. } => frames_since_reset(steps.drop_last()) + 1,
            TimeStep::Reset => 0,
        }
    }
}

/// The frame count is the number of frames recorded since the time state was
/// created or last reset, and the history holds the last of them, at most
/// sixty.
pub proof fn law_frame_count(steps: Seq<TimeStep>)
    ensures
        time_after(steps).frame_count == frames_since_reset(steps),
        time_after(steps).max_history == 60,
        time_after(steps).history.len() == if frames_since_reset(steps) < 60 {
            frames_since_reset(steps)
        } else {
            60
        },
    decreases steps.len(),
{
    if steps.len() > 0 {
        law_frame_count(steps.drop_last());
    }
}

/// The state after updates whose clock readings are `readings` (time since
/// the start, one per update), from a fresh time state.
pub open spec fn after_readings(readings: Seq<nat>) -> TimeView
    decreases readings.len(),
{
    if readings.len() == 0 {
        TimeView::initial()
    } else {
        let prev = after_readings(readings.drop_last());
        prev.advanced(span_between(readings.last(), prev.elapsed), readings.last())
    }
}

/// The frame durations that updates with clock readings `readings` report.
pub open spec fn reported_deltas(readings: Seq<nat>) -> Seq<nat> {
    Seq::new(
        readings.len(),
        |i: int|
            span_between(
                readings[i],
                if i == 0 {
                    0
                } else {
                    readings[i - 1]
                },
            ),
    )
}

/// Over a sequence of updates, the frame count is the number of updates, the
/// elapsed time is the last reading, each update reports the span since the
/// previous reading, and where the clock never goes back, the reported frame
/// durations add up to the elapsed time.
pub proof fn law_updates(readings: Seq<nat>)
    ensures
        after_readings(readings).frame_count == readings.len(),
        readings.len() > 0 ==> after_readings(readings).elapsed == readings.last(),
        readings.len() > 0 ==> after_readings(readings).delta == reported_deltas(readings).last(),
        (forall|i: int, j: int| 0 <= i <= j < readings.len() ==> readings[i] <= readings[j])
            ==> total_nanos(reported_deltas(readings)) == if readings.len() == 0 {
            0
        } else {
            readings.last()
        },
    decreases readings.len(),
{
    if readings.len() > 0 {
        let p = readings.drop_last();
        law_updates(p);
        assert(reported_deltas(readings).drop_last() =~= reported_deltas(p));
    }
}

impl Default for TimeState {
    /// A new time state.
    fn default() -> (t: TimeState)
        ensures
            t.wf(),
            t@ == TimeView::initial(),
    {
        TimeState::new()
    }
}

/// Recording a frame keeps the history within its maximum length, with the
/// new frame last and the older frames, oldest dropped first, before it.
pub proof fn law_history_bounded(t: TimeView, delta: nat, elapsed: nat)
    requires
        t.history.len() <= t.max_history,
        t.max_history > 0,
    ensures
        t.advanced(delta, elapsed).history.len() <= t.max_history,
        t.advanced(delta, elapsed).history.last() == delta,
        t.advanced(delta, elapsed).history.drop_last() == t.history.subrange(
            t.history.len() + 1 - t.advanced(delta, elapsed).history.len(),
            t.history.len() as int,
        ),
        t.advanced(delta, elapsed).max_history == t.max_history,
        t.advanced(delta, elapsed).frame_count == t.frame_count + 1,
{
    let h = t.advanced(delta, elapsed).history;
    let p = t.history.push(delta);
    if p.len() > t.max_history {
        assert(h.drop_last() =~= t.history.subrange(1, t.history.len() as int));
    } else {
        assert(h.drop_last() =~= t.history.subrange(0, t.history.len() as int));
    }
}

/// A prefix of a sequence of spans sums to no more than the whole.
proof fn lemma_total_nanos_prefix(spans: Seq<nat>, n: int)
    requires
        0 <= n <= spans.len(),
    ensures
        total_nanos(spans.take(n)) <= total_nanos(spans),
    decreases spans.len() - n,
{
    if n < spans.len() {
        lemma_total_nanos_prefix(spans, n + 1);
        assert(spans.take(n + 1).drop_last() =~= spans.take(n));
    } else {
        assert(spans.take(n) =~= spans);
    }
}

/// The abstract state of a [`Timer`].
pub struct TimerView {
    /// The span the timer runs for, in nanoseconds.
    pub duration: nat,
    /// The time accumulated so far, in nanoseconds.
    pub elapsed: nat,
    /// Whether the timer starts over when it finishes.
    pub repeating: bool,
    /// Whether the timer's last tick completed it (a one-shot timer stays
    /// finished).
    pub finished: bool,
}

impl TimerView {
    /// The time left until the timer completes, none once it has run over.
    pub open spec fn remaining(self) -> nat {
        span_between(self.duration, self.elapsed)
    }

    /// A one-shot timer that has finished ignores further ticks.
    pub open spec fn stopped(self) -> bool {
        self.finished && !self.repeating
    }

    /// Whether a tick of `delta` nanoseconds completes the timer.
    pub open spec fn tick_completes(self, delta: nat) -> bool {
        !self.stopped() && self.elapsed + delta >= self.duration
    }

    /// The state after a tick of `delta` nanoseconds.
    /// A tick completes the timer, which is then finished; a repeating timer
    /// starts over at the same time, and stays finished only until its next
    /// tick.
    pub open spec fn ticked(self, delta: nat) -> TimerView {
        if self.stopped() {
            self
        } else if self.elapsed + delta >= self.duration {
            if self.repeating {
                TimerView { elapsed: 0, finished: true, ..self }
            } else {
                TimerView { elapsed: self.elapsed + delta, finished: true, ..self }
            }
        } else {
            TimerView { elapsed: self.elapsed + delta, finished: false, ..self }
        }
    }

    /// Whether a tick of `delta` nanoseconds stays within the range of
    /// [`Duration`].
    pub open spec fn tick_in_range(self, delta: nat) -> bool {
        !self.stopped() ==> self.elapsed + delta <= MAX_DURATION_NANOS
    }
}

/// Timer utility for tracking specific durations.
#[derive(Debug)]
pub struct Timer {
    duration: Duration,
    elapsed: Duration,
    repeating: bool,
    finished: bool,
}

impl View for Timer {
    type V = TimerView;

    closed spec fn view(&self) -> TimerView {
        TimerView {
            duration: self.duration@,
            elapsed: self.elapsed@,
            repeating: self.repeating,
            finished: self.finished,
        }
    }
}

impl Clone for Timer {
    /// A timer in the same state.
    fn clone(&self) -> (t: Timer)
        ensures
            t@ == self@,
    {
        Timer {
            duration: self.duration,
            elapsed: self.elapsed,
            repeating: self.repeating,
            finished: self.finished,
        }
    }
}

impl Timer {
    /// Create a new timer with the given duration.
    pub fn new(duration: Duration, repeating: bool) -> (t: Timer)
        ensures
            t@ == (TimerView { duration: duration@, elapsed: 0, repeating, finished: false }),
    {
        Timer { duration, elapsed: Duration::zero(), repeating, finished: false }
    }

    /// Create a one-shot timer.
    pub fn once(duration: Duration) -> (t: Timer)
        ensures
            t@ == (TimerView { duration: duration@, elapsed: 0, repeating: false, finished: false }),
    {
        Self::new(duration, false)
    }

    /// Create a repeating timer.
    pub fn repeating(duration: Duration) -> (t: Timer)
        ensures
            t@ == (TimerView { duration: duration@, elapsed: 0, repeating: true, finished: false }),
    {
        Self::new(duration, true)
    }

    /// Update the timer with delta time; returns whether the timer completed
    /// on this tick. A one-shot timer that has finished ignores ticks; a
    /// repeating timer starts over when it completes.
    pub fn tick(&mut self, delta: Duration) -> (done: bool)
        requires
            old(self)@.tick_in_range(delta@),
        ensures
            final(self)@ == old(self)@.ticked(delta@),
            done == old(self)@.tick_completes(delta@),
    {
        if self.finished && !self.repeating {
            return false;
        }
        self.elapsed = self.elapsed.checked_add(delta).unwrap();
        if self.elapsed.as_nanos() >= self.duration.as_nanos() {
            self.finished = true;
            if self.repeating {
                self.elapsed = Duration::zero();
            }
            true
        } else {
            self.finished = false;
            false
        }
    }

    /// Check if the timer just finished.
    pub fn just_finished(&self) -> (b: bool)
        ensures
            b == self@.finished,
    {
        self.finished
    }

    /// Get remaining time.
    pub fn remaining(&self) -> (r: Duration)
        ensures
            r@ == self@.remaining(),
    {
        self.duration.saturating_sub(self.elapsed)
    }

    /// The span the timer runs for.
    pub fn duration(&self) -> (d: Duration)
        ensures
            d@ == self@.duration,
    {
        self.duration
    }

    /// The time accumulated so far.
    pub fn elapsed(&self) -> (d: Duration)
        ensures
            d@ == self@.elapsed,
    {
        self.elapsed
    }

    /// Reset the timer.
    pub fn reset(&mut self)
        ensures
            final(self)@ == (TimerView { elapsed: 0, finished: false, ..old(self)@ }),
    {
        self.elapsed = Duration::zero();
        self.finished = false;
    }
}

/// A one-shot timer that has finished ignores ticks: its state stays and the
/// tick reports no completion.
pub proof fn law_stopped_timer_ignores_ticks(t: TimerView, delta: nat)
    requires
        t.finished,
        !t.repeating,
    ensures
        t.ticked(delta) == t,
        !t.tick_completes(delta),
{
}

/// A one-shot timer that completes on a tick is finished afterwards and
/// stays so, whatever ticks follow.
pub proof fn law_one_shot_stays_finished(t: TimerView, delta: nat, later: nat)
    requires
        !t.repeating,
        t.tick_completes(delta),
    ensures
        t.ticked(delta).finished,
        t.ticked(delta).ticked(later) == t.ticked(delta),
{
}

/// A repeating timer has just finished exactly when its last tick completed
/// it; it then starts over, and otherwise it has accumulated less than its
/// duration.
pub proof fn law_repeating_timer_starts_over(t: TimerView, delta: nat)
    requires
        t.repeating,
    ensures
        t.ticked(delta).finished == t.tick_completes(delta),
        t.ticked(delta).repeating,
        t.tick_completes(delta) ==> t.ticked(delta).elapsed == 0,
        !t.tick_completes(delta) ==> t.ticked(delta).elapsed < t.duration,
{
}

/// After a reset a timer is as a fresh one with the same duration and
/// repetition: nothing remains accumulated, it has not finished, and a tick
/// of its whole duration completes it again.
pub proof fn law_reset_runs_again(t: TimerView)
    ensures
        (TimerView { elapsed: 0, finished: false, ..t }) == (TimerView {
            duration: t.duration,
            elapsed: 0,
            repeating: t.repeating,
            finished: false,
        }),
        (TimerView { elapsed: 0, finished: false, ..t }).remaining() == t.duration,
        (TimerView { elapsed: 0, finished: false, ..t }).tick_completes(t.duration),
        t.duration <= MAX_DURATION_NANOS ==> (TimerView {
            elapsed: 0,
            finished: false,
            ..t
        }).tick_in_range(t.duration),
{
}

/// Ticking never changes a timer's duration or whether it repeats, so a reset
/// after any tick gives the state that a reset alone gives.
pub proof fn law_reset_undoes_tick(t: TimerView, delta: nat)
    ensures
        t.ticked(delta).duration == t.duration,
        t.ticked(delta).repeating == t.repeating,
        (TimerView { elapsed: 0, finished: false, ..t.ticked(delta) }) == (TimerView {
            elapsed: 0,
            finished: false,
            ..t
        }),
{
}

/// The state of a timer after ticks of `deltas` nanoseconds, in order.
pub open spec fn ticked_all(t: TimerView, deltas: Seq<nat>) -> TimerView
    decreases deltas.len(),
{
    if deltas.len() == 0 {
        t
    } else {
        ticked_all(t, deltas.drop_last()).ticked(deltas.last())
    }
}

/// How many of the ticks of `deltas` nanoseconds, in order, complete the
/// timer.
pub open spec fn completions(t: TimerView, deltas: Seq<nat>) -> nat
    decreases deltas.len(),
{
    if deltas.len() == 0 {
        0
    } else {
        completions(t, deltas.drop_last()) + if ticked_all(t, deltas.drop_last()).tick_completes(
            deltas.last(),
        ) {
            1nat
        } else {
            0nat
        }
    }
}

/// A one-shot timer completes on at most one tick of any sequence: after it
/// has, it is finished, and every later tick reports nothing.
pub proof fn law_one_shot_fires_once(t: TimerView, deltas: Seq<nat>)
    requires
        !t.repeating,
        !t.finished,
    ensures
        completions(t, deltas) <= 1,
        completions(t, deltas) == 1 <==> ticked_all(t, deltas).finished,
        !ticked_all(t, deltas).repeating,
    decreases deltas.len(),
{
    if deltas.len() > 0 {
        law_one_shot_fires_once(t, deltas.drop_last());
    }
}

/// A one-shot timer's remaining time after any sequence of ticks is its
/// duration less the sum of the ticks, or none once they reach it.
pub proof fn law_one_shot_remaining(duration: nat, deltas: Seq<nat>)
    ensures
        ticked_all(
            TimerView { duration, elapsed: 0, repeating: false, finished: false },
            deltas,
        ).remaining() == span_between(duration, total_nanos(deltas)),
{
    lemma_one_shot_elapsed(
        TimerView { duration, elapsed: 0, repeating: false, finished: false },
        deltas,
    );
}

/// A running one-shot timer accumulates every tick until it finishes, and
/// nothing after.
proof fn lemma_one_shot_elapsed(t: TimerView, deltas: Seq<nat>)
    requires
        !t.repeating,
        !t.finished,
    ensures
        !ticked_all(t, deltas).repeating,
        ticked_all(t, deltas).duration == t.duration,
        ticked_all(t, deltas).elapsed <= t.elapsed + total_nanos(deltas),
        !ticked_all(t, deltas).finished ==> ticked_all(t, deltas).elapsed == t.elapsed
            + total_nanos(deltas),
        ticked_all(t, deltas).finished ==> ticked_all(t, deltas).elapsed >= t.duration,
        ticked_all(t, deltas).remaining() == span_between(
            t.duration,
            t.elapsed + total_nanos(deltas),
        ),
    decreases deltas.len(),
{
    if deltas.len() > 0 {
        lemma_one_shot_elapsed(t, deltas.drop_last());
    }
}

} // verus!
