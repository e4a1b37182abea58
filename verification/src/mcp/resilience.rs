//! What keeps one failing or busy server from dragging its callers along: a circuit breaker and
//! a rate limiter.

use vstd::prelude::*;

use crate::clock::{Duration, Instant};

verus! {

/// Length of a rate-limiting window, in nanoseconds.
pub const WINDOW_NANOS: u64 = 60_000_000_000;

/// Whole seconds in a span that is left to wait, at least one and at most what `u64` holds.
pub open spec fn wait_secs(nanos: int) -> int {
    let secs = nanos / 1_000_000_000;
    if secs < 1 {
        1
    } else if secs > u64::MAX {
        u64::MAX as int
    } else {
        secs
    }
}

fn wait_secs_of(nanos: u128) -> (secs: u64)
    ensures
        secs == wait_secs(nanos as int),
{
    let secs: u128 = nanos / 1_000_000_000;
    if secs < 1 {
        1
    } else if secs > u64::MAX as u128 {
        u64::MAX
    } else {
        secs as u64
    }
}

// ---------------------------------------------------------------------------
// Circuit breaker
// ---------------------------------------------------------------------------

/// Counts consecutive failures. Once there are `threshold` of them the circuit is open: no call
/// is let through until the cooldown is over. A threshold of zero switches the breaker off.
#[derive(Clone, Copy, Debug, PartialEq, Eq, Structural)]
pub struct CircuitBreakerState {
    pub threshold: u32,
    pub cooldown: Duration,
    pub consecutive_failures: u32,
    /// The clock reading, in nanoseconds, from which calls are let through again.
    pub open_until: Option<u128>,
}

impl CircuitBreakerState {
    /// A closed breaker that has seen no failure.
    pub open spec fn fresh(threshold: u32, cooldown_secs: u64) -> CircuitBreakerState {
        CircuitBreakerState {
            threshold,
            cooldown: Duration {
                secs: if cooldown_secs < 1 {
                    1
                } else {
                    cooldown_secs
                },
                subsec_nanos: 0,
            },
            consecutive_failures: 0,
            open_until: None,
        }
    }

    /// The failures counted are too few to open the circuit, and a breaker that is switched off
    /// counts none.
    pub open spec fn wf(self) -> bool {
        &&& self.cooldown.wf()
        &&& self.cooldown.secs >= 1
        &&& self.threshold > 0 ==> self.consecutive_failures < self.threshold
        &&& self.threshold == 0 ==> self.consecutive_failures == 0 && self.open_until is None
    }

    /// The circuit is open at `now`.
    pub open spec fn blocks(self, now: Instant) -> bool {
        self.threshold > 0 && self.open_until is Some && now.nanos < self.open_until->0
    }

    /// Whether a call may start at `now`, or the seconds to wait.
    pub open spec fn verdict(self, now: Instant) -> Result<(), u64> {
        if self.blocks(now) {
            Err(wait_secs(self.open_until->0 - now.nanos) as u64)
        } else {
            Ok(())
        }
    }

    /// The breaker after a call asked to start at `now`.
    pub open spec fn after_check(self, now: Instant) -> CircuitBreakerState {
        if self.threshold > 0 && self.open_until is Some && !self.blocks(now) {
            CircuitBreakerState { consecutive_failures: 0, open_until: None, ..self }
        } else {
            self
        }
    }

    /// The breaker after a call that succeeded.
    pub open spec fn after_success(self) -> CircuitBreakerState {
        CircuitBreakerState { consecutive_failures: 0, open_until: None, ..self }
    }

    /// One more failure opens the circuit.
    pub open spec fn trips(self) -> bool {
        self.threshold > 0 && self.consecutive_failures + 1 >= self.threshold
    }

    /// The breaker after a call that failed at `now`.
    pub open spec fn after_failure(self, now: Instant) -> CircuitBreakerState {
        if self.threshold == 0 {
            self
        } else if self.trips() {
            CircuitBreakerState {
                consecutive_failures: 0,
                open_until: Some((now.nanos + self.cooldown.total_nanos()) as u128),
                ..self
            }
        } else {
            CircuitBreakerState {
                consecutive_failures: (self.consecutive_failures + 1) as u32,
                ..self
            }
        }
    }

    /// Sets up a breaker. The cooldown is at least one second.
    pub fn new(threshold: u32, cooldown_secs: u64) -> (breaker: CircuitBreakerState)
        ensures
            breaker == CircuitBreakerState::fresh(threshold, cooldown_secs),
            breaker.wf(),
    {
        CircuitBreakerState {
            threshold,
            cooldown: Duration::from_secs(
                if cooldown_secs < 1 {
                    1
                } else {
                    cooldown_secs
                },
            ),
            consecutive_failures: 0,
            open_until: None,
        }
    }

    /// Asks whether a call may start at `now`. While the circuit is open the answer is the
    /// seconds left, at least one; the first question after that closes it.
    pub fn check_ready(&mut self, now: Instant) -> (ready: Result<(), u64>)
        ensures
            ready == old(self).verdict(now),
            *final(self) == old(self).after_check(now),
            old(self).wf() ==> final(self).wf(),
    {
        if self.threshold == 0 {
            return Ok(());
        }
        if let Some(open_until) = self.open_until {
            if (now.nanos as u128) < open_until {
                return Err(wait_secs_of(open_until - now.nanos as u128));
            }
            self.open_until = None;
            self.consecutive_failures = 0;
        }
        Ok(())
    }

    /// Takes note of a call that succeeded.
    pub fn record_success(&mut self)
        ensures
            *final(self) == old(self).after_success(),
            old(self).wf() ==> final(self).wf(),
    {
        self.consecutive_failures = 0;
        self.open_until = None;
    }

    /// Takes note of a call that failed at `now`, and says whether that opened the circuit.
    pub fn record_failure(&mut self, now: Instant) -> (opened: bool)
        ensures
            opened == old(self).trips(),
            *final(self) == old(self).after_failure(now),
            old(self).wf() ==> final(self).wf(),
    {
        if self.threshold == 0 {
            return false;
        }
        let failures: u32 = self.consecutive_failures.saturating_add(1);
        self.consecutive_failures = failures;
        if failures >= self.threshold {
            self.open_until = Some(now.nanos as u128 + self.cooldown.as_nanos());
            self.consecutive_failures = 0;
            return true;
        }
        false
    }
}

/// Something that a breaker is told or asked.
pub enum BreakerEvent {
    Check(Instant),
    Success,
    Failure(Instant),
}

/// The breaker after one event.
pub open spec fn breaker_step(
    breaker: CircuitBreakerState,
    event: BreakerEvent,
) -> CircuitBreakerState {
    match event {
        BreakerEvent::Check(now) => breaker.after_check(now),
        BreakerEvent::Success => breaker.after_success(),
        BreakerEvent::Failure(now) => breaker.after_failure(now),
    }
}

/// The breaker after a sequence of events.
pub open spec fn breaker_run(
    breaker: CircuitBreakerState,
    events: Seq<BreakerEvent>,
) -> CircuitBreakerState
    decreases events.len(),
{
    if events.len() == 0 {
        breaker
    } else {
        breaker_step(breaker_run(breaker, events.drop_last()), events.last())
    }
}

/// How many failures a sequence of events reports since its last success.
pub open spec fn failures_since_success(events: Seq<BreakerEvent>) -> nat
    decreases events.len(),
{
    if events.len() == 0 {
        0
    } else {
        match events.last() {
            BreakerEvent::Check(_) => failures_since_success(events.drop_last()),
            BreakerEvent::Success => 0,
            BreakerEvent::Failure(_) => failures_since_success(events.drop_last()) + 1,
        }
    }
}

/// Whatever happens to a new breaker, its count stays below the threshold, and its circuit is
/// open only if at least `threshold` failures came after the last success.
pub proof fn law_breaker_opens_only_on_consecutive_failures(
    threshold: u32,
    cooldown_secs: u64,
    events: Seq<BreakerEvent>,
)
    ensures
        breaker_run(CircuitBreakerState::fresh(threshold, cooldown_secs), events).wf(),
        breaker_run(CircuitBreakerState::fresh(threshold, cooldown_secs), events).threshold
            == threshold,
        breaker_run(CircuitBreakerState::fresh(threshold, cooldown_secs), events).open_until is Some
            ==> threshold > 0 && failures_since_success(events) >= threshold,
{
    lemma_breaker_run(threshold, cooldown_secs, events);
}

proof fn lemma_breaker_run(threshold: u32, cooldown_secs: u64, events: Seq<BreakerEvent>)
    ensures
        ({
            let b = breaker_run(CircuitBreakerState::fresh(threshold, cooldown_secs), events);
            &&& b.wf()
            &&& b.threshold == threshold
            &&& b.cooldown == CircuitBreakerState::fresh(threshold, cooldown_secs).cooldown
            &&& b.consecutive_failures <= failures_since_success(events)
            &&& b.open_until is Some ==> threshold > 0 && failures_since_success(events)
                >= threshold
        }),
    decreases events.len(),
{
    if events.len() > 0 {
        lemma_breaker_run(threshold, cooldown_secs, events.drop_last());
    }
}

/// Only failures, one at each of the given times.
pub open spec fn all_failures(times: Seq<Instant>) -> Seq<BreakerEvent> {
    times.map_values(|t: Instant| BreakerEvent::Failure(t))
}

/// Failures in a row open the circuit exactly when their number reaches the threshold: not
/// before, and then until one cooldown after the last of them.
pub proof fn law_breaker_trips_at_threshold(
    threshold: u32,
    cooldown_secs: u64,
    times: Seq<Instant>,
)
    requires
        0 < threshold,
        times.len() <= threshold,
    ensures
        ({
            let fresh = CircuitBreakerState::fresh(threshold, cooldown_secs);
            let b = breaker_run(fresh, all_failures(times));
            &&& times.len() < threshold ==> b.open_until is None && b.consecutive_failures
                == times.len()
            &&& times.len() == threshold ==> b.open_until == Some(
                (times.last().nanos + fresh.cooldown.total_nanos()) as u128,
            )
        }),
    decreases times.len(),
{
    if times.len() > 0 {
        law_breaker_trips_at_threshold(threshold, cooldown_secs, times.drop_last());
        assert(all_failures(times).drop_last() =~= all_failures(times.drop_last()));
        lemma_breaker_run(threshold, cooldown_secs, all_failures(times.drop_last()));
    }
}

/// An open circuit refuses every call before its end and none from then on, and refusing
/// changes nothing.
pub proof fn law_open_circuit_blocks_until_cooldown_is_over(
    breaker: CircuitBreakerState,
    now: Instant,
)
    requires
        breaker.threshold > 0,
        breaker.open_until is Some,
    ensures
        now.nanos < breaker.open_until->0 ==> breaker.verdict(now) is Err && breaker.after_check(
            now,
        ) == breaker,
        now.nanos >= breaker.open_until->0 ==> breaker.verdict(now) is Ok && breaker.after_check(
            now,
        ).open_until is None && breaker.after_check(now).consecutive_failures == 0,
{
}

/// A breaker with threshold zero refuses nothing, whatever it is told.
pub proof fn law_breaker_can_be_disabled(
    cooldown_secs: u64,
    events: Seq<BreakerEvent>,
    now: Instant,
)
    ensures
        breaker_run(CircuitBreakerState::fresh(0, cooldown_secs), events).verdict(now) == Ok::<
            (),
            u64,
        >(()),
        !breaker_run(CircuitBreakerState::fresh(0, cooldown_secs), events).trips(),
{
    lemma_breaker_run(0, cooldown_secs, events);
}

// ---------------------------------------------------------------------------
// Rate limiter
// ---------------------------------------------------------------------------

/// Lets a limited number of calls start within a window of one minute. The first call after a
/// window is over opens the next one. A limit of zero switches the limiter off.
#[derive(Clone, Copy, Debug, PartialEq, Eq, Structural)]
pub struct FixedWindowRateLimiter {
    pub limit_per_minute: u32,
    pub window_started_at: Instant,
    pub used_in_window: u32,
}

impl FixedWindowRateLimiter {
    /// No more calls were let through in the window than its limit.
    pub open spec fn wf(self) -> bool {
        self.used_in_window <= self.limit_per_minute
    }

    /// The limiter with the window in which `now` falls: the current one, or a new one.
    pub open spec fn rolled(self, now: Instant) -> FixedWindowRateLimiter {
        if now.nanos_since(self.window_started_at) >= WINDOW_NANOS {
            FixedWindowRateLimiter { window_started_at: now, used_in_window: 0, ..self }
        } else {
            self
        }
    }

    /// A call that asks at `now` is let through.
    pub open spec fn admits(self, now: Instant) -> bool {
        self.limit_per_minute == 0 || self.rolled(now).used_in_window < self.limit_per_minute
    }

    /// Whether a call may start at `now`, or the seconds to wait.
    pub open spec fn verdict(self, now: Instant) -> Result<(), u64> {
        if self.admits(now) {
            Ok(())
        } else {
            Err(
                wait_secs(
                    WINDOW_NANOS - now.nanos_since(self.rolled(now).window_started_at),
                ) as u64,
            )
        }
    }

    /// The limiter after a call asked at `now`.
    pub open spec fn after(self, now: Instant) -> FixedWindowRateLimiter {
        if self.limit_per_minute == 0 {
            self
        } else if self.admits(now) {
            FixedWindowRateLimiter {
                used_in_window: (self.rolled(now).used_in_window + 1) as u32,
                ..self.rolled(now)
            }
        } else {
            self.rolled(now)
        }
    }

    /// Sets up a limiter whose first window starts at `now`.
    pub fn new(limit_per_minute: u32, now: Instant) -> (limiter: FixedWindowRateLimiter)
        ensures
            limiter == (FixedWindowRateLimiter {
                limit_per_minute,
                window_started_at: now,
                used_in_window: 0,
            }),
            limiter.wf(),
    {
        FixedWindowRateLimiter { limit_per_minute, window_started_at: now, used_in_window: 0 }
    }

    /// Lets a call start at `now`, or says how many seconds to wait.
    pub fn consume_or_retry_after_secs(&mut self, now: Instant) -> (admitted: Result<(), u64>)
        ensures
            admitted == old(self).verdict(now),
            *final(self) == old(self).after(now),
            old(self).wf() ==> final(self).wf(),
            admitted matches Err(secs) ==> 1 <= secs <= 60,
    {
        if self.limit_per_minute == 0 {
            return Ok(());
        }
        if now.elapsed_nanos(self.window_started_at) >= WINDOW_NANOS {
            self.window_started_at = now;
            self.used_in_window = 0;
        }
        if self.used_in_window < self.limit_per_minute {
            self.used_in_window = self.used_in_window.saturating_add(1);
            return Ok(());
        }
        let left: u64 = WINDOW_NANOS - now.elapsed_nanos(self.window_started_at);
        Err(wait_secs_of(left as u128))
    }
}

/// The limiter after calls asked at each of the given times.
pub open spec fn limiter_run(
    limiter: FixedWindowRateLimiter,
    times: Seq<Instant>,
) -> FixedWindowRateLimiter
    decreases times.len(),
{
    if times.len() == 0 {
        limiter
    } else {
        limiter_run(limiter, times.drop_last()).after(times.last())
    }
}

/// How many of the calls that asked at the given times were let through.
pub open spec fn admitted(limiter: FixedWindowRateLimiter, times: Seq<Instant>) -> nat
    decreases times.len(),
{
    if times.len() == 0 {
        0
    } else {
        let earlier = times.drop_last();
        admitted(limiter, earlier) + if limiter_run(limiter, earlier).admits(times.last()) {
            1nat
        } else {
            0nat
        }
    }
}

/// All the times fall into the limiter's current window.
pub open spec fn within_window(limiter: FixedWindowRateLimiter, times: Seq<Instant>) -> bool {
    forall|i: int|
        0 <= i < times.len() ==> (#[trigger] times[i]).nanos_since(limiter.window_started_at)
            < WINDOW_NANOS
}

/// Within one window exactly as many calls are let through as are left of its limit, if that
/// many ask, and no more.
pub proof fn law_limiter_admits_up_to_the_limit(
    limiter: FixedWindowRateLimiter,
    times: Seq<Instant>,
)
    requires
        limiter.wf(),
        limiter.limit_per_minute > 0,
        within_window(limiter, times),
    ensures
        admitted(limiter, times) == if times.len() <= limiter.limit_per_minute
            - limiter.used_in_window {
            times.len() as int
        } else {
            limiter.limit_per_minute - limiter.used_in_window
        },
        limiter_run(limiter, times).wf(),
        limiter_run(limiter, times).window_started_at == limiter.window_started_at,
        limiter_run(limiter, times).limit_per_minute == limiter.limit_per_minute,
        limiter_run(limiter, times).used_in_window == limiter.used_in_window + admitted(
            limiter,
            times,
        ),
    decreases times.len(),
{
    if times.len() > 0 {
        let earlier = times.drop_last();
        assert forall|i: int| 0 <= i < earlier.len() implies (#[trigger] earlier[i]).nanos_since(
            limiter.window_started_at,
        ) < WINDOW_NANOS by {
            assert(earlier[i] == times[i]);
        }
        law_limiter_admits_up_to_the_limit(limiter, earlier);
        assert(times.last() == times[times.len() - 1]);
    }
}

/// One minute after its window started a limiter lets calls through again.
pub proof fn law_limiter_renews_each_window(limiter: FixedWindowRateLimiter, now: Instant)
    requires
        now.nanos_since(limiter.window_started_at) >= WINDOW_NANOS,
    ensures
        limiter.verdict(now) == Ok::<(), u64>(()),
        limiter.limit_per_minute > 0 ==> limiter.after(now).window_started_at == now
            && limiter.after(now).used_in_window == 1,
{
}

/// A limiter with limit zero lets every call through, and stays as it is.
pub proof fn law_limiter_can_be_disabled(limiter: FixedWindowRateLimiter, times: Seq<Instant>)
    requires
        limiter.limit_per_minute == 0,
    ensures
        admitted(limiter, times) == times.len(),
        limiter_run(limiter, times) == limiter,
    decreases times.len(),
{
    if times.len() > 0 {
        law_limiter_can_be_disabled(limiter, times.drop_last());
    }
}

// ---------------------------------------------------------------------------
// Steps, case by case
// ---------------------------------------------------------------------------

/// A new breaker is closed, has seen no failure, and cools down for the seconds that it is given,
/// or for one second where that is none.
pub proof fn law_new_breaker_is_closed(threshold: u32, cooldown_secs: u64)
    ensures
        ({
            let b = CircuitBreakerState::fresh(threshold, cooldown_secs);
            &&& b.threshold == threshold
            &&& b.consecutive_failures == 0
            &&& b.open_until is None
            &&& cooldown_secs >= 1 ==> b.cooldown.secs == cooldown_secs
            &&& cooldown_secs == 0 ==> b.cooldown.secs == 1
            &&& b.cooldown.subsec_nanos == 0
        }),
{
}

/// Asking a closed breaker lets the call through and changes nothing.
pub proof fn law_asking_a_closed_breaker_changes_nothing(b: CircuitBreakerState, now: Instant)
    requires
        b.open_until is None,
    ensures
        b.verdict(now) == Ok::<(), u64>(()),
        b.after_check(now) == b,
{
}

/// Asking an open breaker before its end gives the whole seconds that are left, or one where
/// less than a second is left, and changes nothing. From its end on the call is let through and
/// the breaker is as if no call had failed.
pub proof fn law_asking_an_open_breaker(b: CircuitBreakerState, until: u128, now: Instant)
    requires
        b.threshold > 0,
        b.open_until == Some(until),
    ensures
        now.nanos < until ==> b.after_check(now) == b && (b.verdict(now) matches Err(secs)
            && secs >= 1 && (until - now.nanos >= 1_000_000_000 && until - now.nanos
            < 1_000_000_000 * u64::MAX ==> secs * 1_000_000_000 <= until - now.nanos < (secs + 1)
            * 1_000_000_000) && (until - now.nanos < 1_000_000_000 ==> secs == 1) && (until
            - now.nanos >= 1_000_000_000 * u64::MAX ==> secs == u64::MAX)),
        now.nanos >= until ==> b.verdict(now) == Ok::<(), u64>(()) && b.after_check(now)
            == (CircuitBreakerState {
            threshold: b.threshold,
            cooldown: b.cooldown,
            consecutive_failures: 0,
            open_until: None,
        }),
{
    if now.nanos < until {
        let left = until - now.nanos;
        let secs = left / 1_000_000_000;
        assert(secs * 1_000_000_000 <= left < (secs + 1) * 1_000_000_000);
    }
}

/// A failure below the threshold is counted, and nothing else changes. The failure that reaches
/// it opens the circuit for the cooldown and starts the count anew.
pub proof fn law_failures_count_up_to_the_threshold(b: CircuitBreakerState, now: Instant)
    requires
        b.threshold > 0,
    ensures
        b.consecutive_failures + 1 < b.threshold ==> !b.trips() && b.after_failure(now)
            == (CircuitBreakerState {
            threshold: b.threshold,
            cooldown: b.cooldown,
            consecutive_failures: (b.consecutive_failures + 1) as u32,
            open_until: b.open_until,
        }),
        b.consecutive_failures + 1 >= b.threshold ==> b.trips() && b.after_failure(now)
            == (CircuitBreakerState {
            threshold: b.threshold,
            cooldown: b.cooldown,
            consecutive_failures: 0,
            open_until: Some(
                (now.nanos + 1_000_000_000 * b.cooldown.secs + b.cooldown.subsec_nanos) as u128,
            ),
        }),
{
}

/// A success closes the circuit and starts the count anew.
pub proof fn law_a_success_starts_anew(b: CircuitBreakerState)
    ensures
        b.after_success() == (CircuitBreakerState {
            threshold: b.threshold,
            cooldown: b.cooldown,
            consecutive_failures: 0,
            open_until: None,
        }),
{
}

/// A breaker that is switched off stays as it is, whatever fails.
pub proof fn law_a_disabled_breaker_takes_no_note(b: CircuitBreakerState, now: Instant)
    requires
        b.threshold == 0,
    ensures
        b.verdict(now) == Ok::<(), u64>(()),
        b.after_check(now) == b,
        b.after_failure(now) == b,
        !b.trips(),
{
}

/// How many failures a sequence of events reports.
pub open spec fn failures(events: Seq<BreakerEvent>) -> nat
    decreases events.len(),
{
    if events.len() == 0 {
        0
    } else {
        failures(events.drop_last()) + if events.last() is Failure {
            1nat
        } else {
            0nat
        }
    }
}

/// As long as no call succeeds, the circuit is closed while fewer calls have failed than the
/// threshold, and opens with the failure that reaches it, for the cooldown, however often the
/// breaker is asked in between.
pub proof fn law_questions_do_not_keep_the_circuit_closed(
    threshold: u32,
    cooldown_secs: u64,
    events: Seq<BreakerEvent>,
)
    requires
        threshold > 0,
        forall|i: int| 0 <= i < events.len() ==> !(#[trigger] events[i] is Success),
        failures(events) <= threshold,
    ensures
        ({
            let b = breaker_run(CircuitBreakerState::fresh(threshold, cooldown_secs), events);
            let secs = if cooldown_secs == 0 {
                1
            } else {
                cooldown_secs
            };
            &&& b.threshold == threshold
            &&& b.cooldown.secs == secs && b.cooldown.subsec_nanos == 0
            &&& failures(events) < threshold ==> b.open_until is None && b.consecutive_failures
                == failures(events)
            &&& failures(events) == threshold ==> (events.last() matches BreakerEvent::Failure(t)
                ==> b.open_until == Some((t.nanos + 1_000_000_000 * secs) as u128)
                && b.consecutive_failures == 0)
        }),
    decreases events.len(),
{
    if events.len() > 0 {
        let rest = events.drop_last();
        assert forall|i: int| 0 <= i < rest.len() implies !(#[trigger] rest[i] is Success) by {
            assert(rest[i] == events[i]);
        }
        assert(events.last() == events[events.len() - 1]);
        law_questions_do_not_keep_the_circuit_closed(threshold, cooldown_secs, rest);
    }
}

/// What a breaker was told before a success makes no difference after it.
pub proof fn law_a_success_wipes_out_the_past(
    threshold: u32,
    cooldown_secs: u64,
    events: Seq<BreakerEvent>,
)
    ensures
        breaker_run(
            CircuitBreakerState::fresh(threshold, cooldown_secs),
            events.push(BreakerEvent::Success),
        ) == CircuitBreakerState::fresh(threshold, cooldown_secs),
{
    let fresh = CircuitBreakerState::fresh(threshold, cooldown_secs);
    lemma_breaker_run(threshold, cooldown_secs, events);
    assert(events.push(BreakerEvent::Success).drop_last() =~= events);
    assert(breaker_run(fresh, events.push(BreakerEvent::Success)) == breaker_run(
        fresh,
        events,
    ).after_success());
}

/// Within its minute a limiter lets a call through while there is room, and counts it; without
/// room it says how many whole seconds of the minute are left, at least one, and stays as it is.
pub proof fn law_limiter_within_its_minute(l: FixedWindowRateLimiter, now: Instant)
    requires
        l.limit_per_minute > 0,
        now.nanos < l.window_started_at.nanos + 60_000_000_000,
    ensures
        l.used_in_window < l.limit_per_minute ==> l.verdict(now) == Ok::<(), u64>(()) && l.after(
            now,
        ) == (FixedWindowRateLimiter {
            limit_per_minute: l.limit_per_minute,
            window_started_at: l.window_started_at,
            used_in_window: (l.used_in_window + 1) as u32,
        }),
        l.used_in_window >= l.limit_per_minute ==> l.after(now) == l && (l.verdict(
            now,
        ) matches Err(secs) && 1 <= secs <= 60 && (now.nanos >= l.window_started_at.nanos ==> ({
            let left = l.window_started_at.nanos + 60_000_000_000 - now.nanos;
            &&& left >= 1_000_000_000 ==> secs * 1_000_000_000 <= left < (secs + 1)
                * 1_000_000_000
            &&& left < 1_000_000_000 ==> secs == 1
        })) && (now.nanos < l.window_started_at.nanos ==> secs == 60)),
{
    let left = if now.nanos >= l.window_started_at.nanos {
        l.window_started_at.nanos + 60_000_000_000 - now.nanos
    } else {
        60_000_000_000
    };
    let secs = left / 1_000_000_000;
    assert(secs * 1_000_000_000 <= left < (secs + 1) * 1_000_000_000);
}

/// Once its minute is over, a limiter starts the next one with the call that asks.
pub proof fn law_limiter_after_its_minute(l: FixedWindowRateLimiter, now: Instant)
    requires
        l.limit_per_minute > 0,
        now.nanos >= l.window_started_at.nanos + 60_000_000_000,
    ensures
        l.verdict(now) == Ok::<(), u64>(()),
        l.after(now) == (FixedWindowRateLimiter {
            limit_per_minute: l.limit_per_minute,
            window_started_at: now,
            used_in_window: 1,
        }),
{
}

/// A limiter that is switched off lets a call through at any time and takes no note of it.
pub proof fn law_a_disabled_limiter_takes_no_note(l: FixedWindowRateLimiter, now: Instant)
    requires
        l.limit_per_minute == 0,
    ensures
        l.verdict(now) == Ok::<(), u64>(()),
        l.after(now) == l,
{
}

} // verus!
