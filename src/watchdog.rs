//! The watchdog's service schedule, and a model of the hardware timer that
//! records the gaps between services.
use vstd::prelude::*;

verus! {

/// Microseconds in one second.
pub const MICROS_PER_SEC: u32 = 1000000;

/// The watchdog's two intervals, in microseconds: the hardware resets the
/// platform after `trip_after` without service, and the service task pets it
/// every `service_every`, which is shorter.
#[derive(Clone, Copy, Debug, PartialEq, Eq, Structural)]
pub struct WatchdogConfig {
    trip_after: u32,
    service_every: u32,
}

impl View for WatchdogConfig {
    type V = (nat, nat);

    /// `(trip_after, service_every)`.
    closed spec fn view(&self) -> (nat, nat) {
        (self.trip_after as nat, self.service_every as nat)
    }
}

impl WatchdogConfig {
    /// Whether the intervals suit a watchdog: servicing comes first.
    pub open spec fn wf(&self) -> bool {
        0 < self@.1 < self@.0
    }

    /// A schedule from two intervals in microseconds, when `service_every` is
    /// positive and shorter than `trip_after`.
    pub fn new(trip_after: u32, service_every: u32) -> (r: Option<WatchdogConfig>)
        ensures
            r is Some <==> 0 < service_every < trip_after,
            r matches Some(c) ==> c@ == (trip_after as nat, service_every as nat),
    {
        if 0 < service_every && service_every < trip_after {
            Some(WatchdogConfig { trip_after, service_every })
        } else {
            None
        }
    }

    /// A schedule from two intervals in whole seconds, when both fit in
    /// microseconds as `u32` and `service_every` is positive and shorter.
    pub fn from_secs(trip_after: u32, service_every: u32) -> (r: Option<WatchdogConfig>)
        ensures
            r is Some <==> (0 < service_every < trip_after && trip_after * 1000000 <= u32::MAX),
            r matches Some(c) ==> c@ == ((trip_after * 1000000) as nat, (service_every * 1000000) as nat),
    {
        let trip = match trip_after.checked_mul(MICROS_PER_SEC) {
            Some(t) => t,
            None => return None,
        };
        if 0 < service_every && service_every < trip_after {
            assert(service_every * 1000000 < trip_after * 1000000) by (nonlinear_arith)
                requires service_every < trip_after;
            WatchdogConfig::new(trip, service_every * MICROS_PER_SEC)
        } else {
            None
        }
    }

    /// The platform's schedule: reset after 20 s, service every 15 s.
    pub fn standard() -> (r: WatchdogConfig)
        ensures
            r@ == (20000000nat, 15000000nat),
            r.wf(),
    {
        WatchdogConfig { trip_after: 20000000, service_every: 15000000 }
    }

    /// The reset threshold, in microseconds.
    pub fn trip_after_micros(&self) -> (r: u32)
        ensures
            r == self@.0,
    {
        self.trip_after
    }

    /// The service interval, in microseconds.
    pub fn service_every_micros(&self) -> (r: u32)
        ensures
            r == self@.1,
    {
        self.service_every
    }
}

/// The abstract state of a watchdog timer: its threshold, the time of the
/// last service, and the longest gap between two services so far.
pub struct TimerView {
    pub trip_after: nat,
    pub last_service: nat,
    pub longest_gap: nat,
}

/// The timer after a service at `now`.
pub open spec fn serviced(t: TimerView, now: nat) -> TimerView {
    let gap = (now - t.last_service) as nat;
    TimerView {
        trip_after: t.trip_after,
        last_service: now,
        longest_gap: if gap > t.longest_gap { gap } else { t.longest_gap },
    }
}

/// Whether the timer has forced a reset by `now`: some gap without service,
/// the current one included, reached the threshold.
pub open spec fn fired(t: TimerView, now: nat) -> bool {
    t.longest_gap >= t.trip_after || now - t.last_service >= t.trip_after
}

/// The timer after services at each of `times` in turn.
pub open spec fn serviced_at(t: TimerView, times: Seq<nat>) -> TimerView
    decreases times.len(),
{
    if times.len() == 0 {
        t
    } else {
        serviced(serviced_at(t, times.drop_last()), times.last())
    }
}

/// A watchdog timer that records the gaps between services, with times in
/// microseconds.
pub struct WatchdogTimer {
    trip_after: u64,
    last_service: u64,
    longest_gap: u64,
}

impl View for WatchdogTimer {
    type V = TimerView;

    closed spec fn view(&self) -> TimerView {
        TimerView {
            trip_after: self.trip_after as nat,
            last_service: self.last_service as nat,
            longest_gap: self.longest_gap as nat,
        }
    }
}

impl WatchdogTimer {
    /// A timer armed at `now` with the threshold of `config`.
    pub fn arm(config: &WatchdogConfig, now: u64) -> (t: WatchdogTimer)
        ensures
            t@ == (TimerView { trip_after: config@.0, last_service: now as nat, longest_gap: 0 }),
    {
        WatchdogTimer { trip_after: config.trip_after_micros() as u64, last_service: now, longest_gap: 0 }
    }

    /// The time of the last service (or of arming).
    pub fn last_service(&self) -> (r: u64)
        ensures
            r == self@.last_service,
    {
        self.last_service
    }

    /// Services the timer at `now`.
    pub fn service(&mut self, now: u64)
        requires
            old(self)@.last_service <= now,
        ensures
            final(self)@ == serviced(old(self)@, now as nat),
    {
        let gap = now - self.last_service;
        if gap > self.longest_gap {
            self.longest_gap = gap;
        }
        self.last_service = now;
    }

    /// Whether the timer has forced a reset by `now`.
    pub fn has_fired(&self, now: u64) -> (r: bool)
        requires
            self@.last_service <= now,
        ensures
            r == fired(self@, now as nat),
    {
        self.longest_gap >= self.trip_after || now - self.last_service >= self.trip_after
    }
}

/// Services never shorten the longest gap seen.
proof fn lemma_longest_gap_grows(t: TimerView, times: Seq<nat>)
    ensures
        serviced_at(t, times).longest_gap >= t.longest_gap,
        serviced_at(t, times).trip_after == t.trip_after,
    decreases times.len(),
{
    if times.len() > 0 {
        lemma_longest_gap_grows(t, times.drop_last());
    }
}

/// Whether `times` services a timer last serviced at `start` at least every
/// `every`: each service comes no earlier than the one before and no more than
/// `every` after it.
pub open spec fn serviced_every(start: nat, times: Seq<nat>, every: nat) -> bool {
    forall|i: int|
        0 <= i < times.len() ==> {
            let prev = if i == 0 { start } else { times[i - 1] };
            prev <= #[trigger] times[i] <= prev + every
        }
}

/// The time of the last of `times`, or `start` when there is none.
pub open spec fn last_time(start: nat, times: Seq<nat>) -> nat {
    if times.len() == 0 { start } else { times.last() }
}

proof fn lemma_regular_service(t: TimerView, times: Seq<nat>, every: nat)
    requires
        t.longest_gap <= every,
        serviced_every(t.last_service, times, every),
    ensures
        serviced_at(t, times).longest_gap <= every,
        serviced_at(t, times).last_service == last_time(t.last_service, times),
        serviced_at(t, times).trip_after == t.trip_after,
    decreases times.len(),
{
    if times.len() > 0 {
        let front = times.drop_last();
        assert(serviced_every(t.last_service, front, every)) by {
            assert forall|i: int| 0 <= i < front.len() implies {
                let prev = if i == 0 { t.last_service } else { front[i - 1] };
                prev <= #[trigger] front[i] <= prev + every
            } by {
                assert(front[i] == times[i]);
                if i > 0 {
                    assert(front[i - 1] == times[i - 1]);
                }
            }
        }
        lemma_regular_service(t, front, every);
        let k = times.len() - 1;
        assert(times[k] == times.last());
        if k > 0 {
            assert(times[k - 1] == front.last());
        }
    }
}

/// A timer serviced at least every `every`, with `every` shorter than its
/// threshold, never forces a reset while servicing keeps that pace.
pub proof fn lemma_regular_service_never_fires(t: TimerView, times: Seq<nat>, every: nat, now: nat)
    requires
        t.longest_gap <= every,
        every < t.trip_after,
        serviced_every(t.last_service, times, every),
        last_time(t.last_service, times) <= now <= last_time(t.last_service, times) + every,
    ensures
        !fired(serviced_at(t, times), now),
{
    lemma_regular_service(t, times, every);
}

/// A servicing task starved for at least the threshold forces a reset, and
/// later services do not undo it.
pub proof fn lemma_starvation_fires(t: TimerView, now: nat, later: Seq<nat>, at: nat)
    requires
        t.last_service + t.trip_after <= now,
    ensures
        fired(t, now),
        fired(serviced_at(serviced(t, now), later), at),
{
    lemma_longest_gap_grows(serviced(t, now), later);
}

} // verus!
