//! Simulated time, the event model, and the time-ordered event scheduler.
//!
//! [`SimTime`] and [`SimTimeDelta`] are the clock's value types: totally
//! ordered timestamps and non-negative relative offsets, both counted in
//! nanoseconds of simulated time. The [`Scheduler`] owns the future-event
//! queue and the current-time cursor, and is the only place where time moves
//! forward.
//!
//! Tie-break policy: among events that share a timestamp, the earliest
//! scheduled (insertion order) is popped first.

use crate::keys::{ChannelId, ComponentId};
use vstd::prelude::*;

verus! {

/// Number of nanoseconds in one millisecond.
pub const NANOS_PER_MILLI: u64 = 1_000_000;

/// Number of nanoseconds in one round (one second of simulated time).
pub const NANOS_PER_ROUND: u64 = 1_000_000_000;

/// Relied upon from std: `Duration::as_nanos` returns the total number of
/// nanoseconds of the duration. Nothing is assumed of the value, since a
/// `Duration` is opaque here.
pub assume_specification[ core::time::Duration::as_nanos ](
    d: &core::time::Duration,
) -> u128;

/// A non-negative relative offset of simulated time, in nanoseconds.
/// `SimTime + SimTimeDelta -> SimTime` is the only way time advances.
#[derive(Debug, Clone, Copy, PartialEq, Eq, Structural)]
pub struct SimTimeDelta {
    nanos: u64,
}

impl View for SimTimeDelta {
    type V = nat;

    closed spec fn view(&self) -> nat {
        self.nanos as nat
    }
}

impl SimTimeDelta {
    /// An offset of exactly `nanos` nanoseconds of simulated time.
    pub fn from_nanos(nanos: u64) -> (d: Self)
        ensures
            d@ == nanos,
    {
        SimTimeDelta { nanos }
    }

    /// The offset in nanoseconds.
    pub fn as_nanos(&self) -> (r: u64)
        ensures
            r == self@,
    {
        self.nanos
    }

    /// An offset taken from a wall-clock `Duration`. Durations beyond the
    /// clock's range (about 584 simulated years) are clamped to it.
    pub fn from_duration(delta: core::time::Duration) -> (d: Self) {
        let n = delta.as_nanos();
        if n > u64::MAX as u128 {
            SimTimeDelta { nanos: u64::MAX }
        } else {
            SimTimeDelta { nanos: n as u64 }
        }
    }
}

/// The zero offset: an event scheduled with it fires at the current time.
pub fn no_delta() -> (d: SimTimeDelta)
    ensures
        d@ == 0,
{
    SimTimeDelta { nanos: 0 }
}

/// The offset of one whole round of the simulated clock.
pub fn round_delta() -> (d: SimTimeDelta)
    ensures
        d@ == NANOS_PER_ROUND,
{
    SimTimeDelta { nanos: NANOS_PER_ROUND }
}

/// A simulated timestamp, in nanoseconds since the start of the simulation.
/// Totally ordered; the default is zero. Across the lifetime of one
/// [`Scheduler`] the observed current time never decreases.
#[derive(Debug, Clone, Copy, PartialEq, Eq, Structural)]
pub struct SimTime {
    nanos: u64,
}

impl View for SimTime {
    type V = nat;

    closed spec fn view(&self) -> nat {
        self.nanos as nat
    }
}

impl Default for SimTime {
    /// The start of simulated time.
    fn default() -> (t: Self)
        ensures
            t@ == 0,
    {
        SimTime { nanos: 0 }
    }
}

impl SimTime {
    /// Moves this timestamp forward to `new_time`. Moving backwards is an
    /// invariant violation, so it is ruled out by precondition.
    pub fn advance_to(&mut self, new_time: SimTime)
        requires
            old(self)@ <= new_time@,
        ensures
            final(self)@ == new_time@,
    {
        self.nanos = new_time.nanos;
    }

    /// The timestamp moved forward by `delta`.
    pub fn add_delta(self, delta: SimTimeDelta) -> (t: SimTime)
        requires
            self@ + delta@ <= u64::MAX,
        ensures
            t@ == self@ + delta@,
    {
        SimTime { nanos: self.nanos + delta.nanos }
    }

    /// True exactly at the start of simulated time.
    pub fn is_zero(&self) -> (r: bool)
        ensures
            r == (self@ == 0),
    {
        self.nanos == 0
    }

    /// The timestamp as a whole number of rounds (truncating).
    pub fn as_rounds(&self) -> (r: u64)
        ensures
            r == self@ / NANOS_PER_ROUND as nat,
    {
        self.nanos / NANOS_PER_ROUND
    }

    /// The timestamp as a whole number of milliseconds (truncating).
    pub fn as_millis(&self) -> (r: u128)
        ensures
            r == self@ / NANOS_PER_MILLI as nat,
    {
        (self.nanos / NANOS_PER_MILLI) as u128
    }

    /// The timestamp in nanoseconds.
    pub fn as_nanos(&self) -> (r: u64)
        ensures
            r == self@,
    {
        self.nanos
    }
}

/// A self-addressed wakeup: `sender` always equals `receiver`. The scheduler
/// only ever creates these through [`Scheduler::sched_self_event`].
#[derive(Debug)]
pub struct ProcessEvent<P> {
    pub sender: ComponentId,
    pub receiver: ComponentId,
    pub event: P,
}

/// A component pushing a message onto a channel.
#[derive(Debug)]
pub struct MessageSendEvent<P> {
    pub sender: ComponentId,
    pub channel: ChannelId,
    pub message: P,
}

/// A channel delivering a message to one of its endpoints.
#[derive(Debug)]
pub struct MessageRcvEvent<P> {
    pub channel: ChannelId,
    pub receiver: ComponentId,
    pub message: P,
}

/// The dispatchable events, plus the terminal `EndSimulation` marker.
/// `EndSimulation` is never stored in the queue: it is only returned by
/// [`Scheduler::next_event`] when the queue is exhausted or the run has
/// failed.
#[derive(Debug)]
pub enum EventType<P> {
    ProcessEvent(ProcessEvent<P>),
    MsgSendEvent(MessageSendEvent<P>),
    MsgRcvEvent(MessageRcvEvent<P>),
    EndSimulation,
}

/// Whether the run is still healthy or the sticky failure flag is set.
#[derive(Debug, Clone, Copy, PartialEq, Eq, Structural)]
pub enum SimStatus {
    Running,
    Failure,
}

/// A queue element: an event and the time at which it fires.
struct ScheduledEvent<P> {
    time: SimTime,
    event: EventType<P>,
}

/// One entry of a scheduler's queue, as seen by contracts: it fires no
/// earlier than the current time, never holds the `EndSimulation` marker,
/// and a queued wakeup is always self-addressed.
pub open spec fn entry_wf<P>(now: nat, entry: (nat, EventType<P>)) -> bool {
    &&& entry.0 >= now
    &&& !(entry.1 is EndSimulation)
    &&& (entry.1 matches EventType::ProcessEvent(pe) ==> pe.sender == pe.receiver)
}

/// True when `i` is the index the scheduler pops next from queue `q`: no
/// entry fires earlier, and every earlier-scheduled entry with the same time
/// has already left the queue — so `i` is the first entry holding the
/// minimal time.
pub open spec fn is_first_min<P>(q: Seq<(nat, EventType<P>)>, i: int) -> bool {
    &&& 0 <= i < q.len()
    &&& forall|j: int| 0 <= j < q.len() ==> q[i].0 <= (#[trigger] q[j]).0
    &&& forall|j: int| 0 <= j < i ==> q[i].0 < (#[trigger] q[j]).0
}

/// The index the scheduler pops next from queue `q`: the one index that
/// satisfies [`is_first_min`].
pub open spec fn first_min_index<P>(q: Seq<(nat, EventType<P>)>) -> int {
    choose|i: int| is_first_min(q, i)
}

/// At most one index of `q` is a first minimum: of two, the later one would
/// have to fire strictly earlier than the earlier one and no earlier than it
/// at once.
pub proof fn lemma_first_min_unique<P>(q: Seq<(nat, EventType<P>)>, i: int, j: int)
    requires
        is_first_min(q, i),
        is_first_min(q, j),
    ensures
        i == j,
{
    if i < j {
        assert(q[j].0 < q[i].0);
        assert(q[i].0 <= q[j].0);
    }
    if j < i {
        assert(q[i].0 < q[j].0);
        assert(q[j].0 <= q[i].0);
    }
}

/// The law of the clock: pops deliver events in non-decreasing time order.
/// Across two consecutive live pops — first from `s0` leaving `s1`, then
/// from `s1` leaving `s2` — the clock never regresses, and the first event
/// popped fires no later than the second.
pub proof fn lemma_pop_times_monotone<P>(
    s0: Scheduler<P>,
    s1: Scheduler<P>,
    s2: Scheduler<P>,
    e1: EventType<P>,
    e2: EventType<P>,
)
    requires
        s0.wf(),
        s1.wf(),
        Scheduler::popped_at(s0, s1, e1, first_min_index(s0.queue())),
        Scheduler::popped_at(s1, s2, e2, first_min_index(s1.queue())),
    ensures
        s0.time() <= s1.time(),
        s1.time() <= s2.time(),
{
    let i = first_min_index(s0.queue());
    let j = first_min_index(s1.queue());
    assert(entry_wf(s0.time(), s0.queue()[i]));
    assert(entry_wf(s1.time(), s1.queue()[j]));
}

/// Owns the authoritative future-event set and the current-time cursor; the
/// only component allowed to move time forward. Events fire in ascending
/// time order; equal-time events fire in the order they were scheduled.
pub struct Scheduler<P> {
    events: Vec<ScheduledEvent<P>>,
    curr_time: SimTime,
    sim_status: SimStatus,
}

impl<P> Scheduler<P> {
    /// The future events as contracts see them: `(time in nanoseconds,
    /// event)` pairs, in the order they were scheduled.
    pub closed spec fn queue(&self) -> Seq<(nat, EventType<P>)> {
        self.events@.map(|i: int, e: ScheduledEvent<P>| (e.time@, e.event))
    }

    /// The current time, in nanoseconds.
    pub closed spec fn time(&self) -> nat {
        self.curr_time@
    }

    /// True once the sticky failure flag is set.
    pub closed spec fn failed(&self) -> bool {
        self.sim_status is Failure
    }

    /// Well-formedness: the clock fits the clock's range and every queued
    /// event is a [`entry_wf`] entry for the current time.
    pub open spec fn wf(&self) -> bool {
        &&& self.time() <= u64::MAX
        &&& forall|i: int|
            0 <= i < self.queue().len() ==> entry_wf(self.time(), #[trigger] self.queue()[i])
    }

    /// A fresh scheduler: time zero, no events, no failure.
    pub fn new() -> (s: Self)
        ensures
            s.time() == 0,
            s.queue() == Seq::<(nat, EventType<P>)>::empty(),
            !s.failed(),
            s.wf(),
    {
        let s = Scheduler {
            events: Vec::new(),
            curr_time: SimTime::default(),
            sim_status: SimStatus::Running,
        };
        proof {
            assert(s.queue() =~= Seq::<(nat, EventType<P>)>::empty());
        }
        s
    }

    /// Read-only snapshot of the current time.
    pub fn get_curr_time(&self) -> (t: &SimTime)
        ensures
            t@ == self.time(),
    {
        &self.curr_time
    }

    /// Whether the run is still healthy or the sticky failure flag is set.
    pub fn status(&self) -> (st: SimStatus)
        ensures
            (st is Failure) == self.failed(),
    {
        self.sim_status
    }

    /// What one pop does when the queue is live: entry `i` of the old queue
    /// leaves it, the clock advances to that entry's time, and `i` is the
    /// earliest-scheduled entry among those with the minimal time.
    pub open spec fn popped_at(pre: Self, post: Self, ev: EventType<P>, i: int) -> bool {
        &&& is_first_min(pre.queue(), i)
        &&& ev == pre.queue()[i].1
        &&& post.time() == pre.queue()[i].0
        &&& post.queue() == pre.queue().remove(i)
        &&& post.failed() == pre.failed()
    }

    /// Removes and returns the earliest-time event (equal times: the earliest
    /// scheduled), advancing the current time to that event's time, which is
    /// never a regression. Returns `EndSimulation`, and touches nothing, if
    /// the queue is empty or the sticky failure flag is set.
    pub fn next_event(&mut self) -> (ev: EventType<P>)
        requires
            old(self).wf(),
        ensures
            final(self).wf(),
            final(self).failed() == old(self).failed(),
            final(self).time() >= old(self).time(),
            old(self).failed() ==> ev is EndSimulation && *final(self) == *old(self),
            !old(self).failed() && old(self).queue().len() == 0 ==> ev is EndSimulation
                && *final(self) == *old(self),
            !old(self).failed() && old(self).queue().len() > 0 ==> !(ev is EndSimulation)
                && Self::popped_at(*old(self), *final(self), ev, first_min_index(old(self).queue())),
    {
        match self.sim_status {
            SimStatus::Failure => {
                return EventType::EndSimulation;
            },
            SimStatus::Running => {},
        }
        if self.events.len() == 0 {
            proof {
                assert(*self == *old(self));
            }
            return EventType::EndSimulation;
        }
        let mut best: usize = 0;
        let mut k: usize = 1;
        while k < self.events.len()
            invariant
                0 < k <= self.events@.len(),
                best < k,
                *self == *old(self),
                forall|j: int|
                    0 <= j < k ==> self.events@[best as int].time@ <= (
                    #[trigger] self.events@[j]).time@,
                forall|j: int|
                    0 <= j < best ==> self.events@[best as int].time@ < (
                    #[trigger] self.events@[j]).time@,
            decreases self.events@.len() - k,
        {
            if self.events[k].time.nanos < self.events[best].time.nanos {
                best = k;
            }
            k += 1;
        }
        let ghost pre = *self;
        let se = self.events.remove(best);
        proof {
            assert(entry_wf(pre.time(), pre.queue()[best as int]));
            assert(is_first_min(pre.queue(), best as int));
            lemma_first_min_unique(pre.queue(), best as int, first_min_index(pre.queue()));
        }
        self.curr_time.advance_to(se.time);
        proof {
            assert(self.queue() =~= pre.queue().remove(best as int));
            assert(Self::popped_at(pre, *self, se.event, best as int)) by {
                assert(forall|j: int|
                    0 <= j < pre.queue().len() ==> pre.queue()[best as int].0 <= (
                    #[trigger] pre.queue()[j]).0);
            }
            assert forall|i: int| 0 <= i < self.queue().len() implies entry_wf(
                self.time(),
                #[trigger] self.queue()[i],
            ) by {
                if i < best {
                    assert(self.queue()[i] == pre.queue()[i]);
                } else {
                    assert(self.queue()[i] == pre.queue()[i + 1]);
                }
            }
        }
        se.event
    }

    /// Enqueues a `MsgSendEvent` at `current time + timedelta`.
    pub fn send_msg_delayed(
        &mut self,
        timedelta: SimTimeDelta,
        sender: ComponentId,
        channel: ChannelId,
        message: P,
    )
        requires
            old(self).time() + timedelta@ <= u64::MAX,
        ensures
            final(self).queue() == old(self).queue().push(
                (
                    (old(self).time() + timedelta@) as nat,
                    EventType::MsgSendEvent(MessageSendEvent { sender, channel, message }),
                ),
            ),
            final(self).time() == old(self).time(),
            final(self).failed() == old(self).failed(),
            old(self).wf() ==> final(self).wf(),
    {
        let ghost msg = message;
        let time = self.curr_time.add_delta(timedelta);
        let event = ScheduledEvent {
            time,
            event: EventType::MsgSendEvent(MessageSendEvent { sender, channel, message }),
        };
        self.events.push(event);
        proof {
            assert(self.queue() =~= old(self).queue().push(
                (
                    (old(self).time() + timedelta@) as nat,
                    EventType::MsgSendEvent(MessageSendEvent { sender, channel, message: msg }),
                ),
            ));
        }
    }

    /// Enqueues a `MsgSendEvent` at the current time.
    pub fn send_msg(&mut self, sender: ComponentId, channel: ChannelId, message: P)
        ensures
            final(self).queue() == old(self).queue().push(
                (
                    old(self).time(),
                    EventType::MsgSendEvent(MessageSendEvent { sender, channel, message }),
                ),
            ),
            final(self).time() == old(self).time(),
            final(self).failed() == old(self).failed(),
            old(self).wf() ==> final(self).wf(),
    {
        self.send_msg_delayed(no_delta(), sender, channel, message);
    }

    /// Enqueues a `MsgRcvEvent` at `current time + timedelta`: how a channel
    /// implementation realises its transit delay.
    pub fn sched_receive_msg(
        &mut self,
        timedelta: SimTimeDelta,
        receiver: ComponentId,
        channel: ChannelId,
        message: P,
    )
        requires
            old(self).time() + timedelta@ <= u64::MAX,
        ensures
            final(self).queue() == old(self).queue().push(
                (
                    (old(self).time() + timedelta@) as nat,
                    EventType::MsgRcvEvent(MessageRcvEvent { channel, receiver, message }),
                ),
            ),
            final(self).time() == old(self).time(),
            final(self).failed() == old(self).failed(),
            old(self).wf() ==> final(self).wf(),
    {
        let ghost msg = message;
        let time = self.curr_time.add_delta(timedelta);
        let event = ScheduledEvent {
            time,
            event: EventType::MsgRcvEvent(MessageRcvEvent { channel, receiver, message }),
        };
        self.events.push(event);
        proof {
            assert(self.queue() =~= old(self).queue().push(
                (
                    (old(self).time() + timedelta@) as nat,
                    EventType::MsgRcvEvent(MessageRcvEvent { channel, receiver, message: msg }),
                ),
            ));
        }
    }

    /// Enqueues a self-addressed `ProcessEvent` for `process` at
    /// `current time + timedelta`. Only valid during the initialization
    /// phase, while the current time is still zero: this is how a component
    /// kicks off algorithm execution once, at start.
    pub fn sched_self_event(&mut self, timedelta: SimTimeDelta, process: ComponentId, payload: P)
        requires
            old(self).time() == 0,
        ensures
            final(self).queue() == old(self).queue().push(
                (
                    timedelta@,
                    EventType::ProcessEvent(
                        ProcessEvent { sender: process, receiver: process, event: payload },
                    ),
                ),
            ),
            final(self).time() == 0,
            final(self).failed() == old(self).failed(),
            old(self).wf() ==> final(self).wf(),
    {
        let ghost pay = payload;
        let time = self.curr_time.add_delta(timedelta);
        let event = ScheduledEvent {
            time,
            event: EventType::ProcessEvent(
                ProcessEvent { sender: process, receiver: process, event: payload },
            ),
        };
        self.events.push(event);
        proof {
            assert(self.queue() =~= old(self).queue().push(
                (
                    timedelta@,
                    EventType::ProcessEvent(
                        ProcessEvent { sender: process, receiver: process, event: pay },
                    ),
                ),
            ));
        }
    }

    /// Sets the sticky failure flag: every subsequent [`Scheduler::next_event`]
    /// returns `EndSimulation` without inspecting the queue.
    pub fn sim_error(&mut self)
        ensures
            final(self).failed(),
            final(self).queue() == old(self).queue(),
            final(self).time() == old(self).time(),
            old(self).wf() ==> final(self).wf(),
    {
        self.sim_status = SimStatus::Failure;
    }
}

} // verus!
