//! The simulation driver: owns the components, the channels, the scheduler
//! and the environment; wires topology, runs initialization, drains the
//! event queue, and runs termination and validation.
//!
//! Fatal conditions are returned as [`SimError`] values: the engine is a
//! deterministic test harness, there is no retry or partial-failure
//! recovery.

use crate::channel::{Channel, ChannelBuilder};
use crate::component::{Component, ComponentBuilder};
use crate::keys::{ChannelId, ComponentId};
use crate::scheduler::{entry_wf, first_min_index, is_first_min, EventType, MessageRcvEvent, Scheduler};
use vstd::pervasive::unreached;
use vstd::prelude::*;

verus! {

/// The fatal ways a run can end.
///
/// The first three are invariant violations found while dispatching: an
/// event addressed a handle nobody holds, or a send came from a component
/// that is not an endpoint of the channel it used. `ClockOverflow` means a
/// delivery time left the clock's range. `ValidationFailed` is the
/// end-of-run oracle saying the simulated algorithm did not converge.
#[derive(Debug, Clone, Copy, PartialEq, Eq, Structural)]
pub enum SimError {
    UnknownComponent(ComponentId),
    UnknownChannel(ChannelId),
    ForeignSender(ChannelId, ComponentId),
    ClockOverflow(ChannelId),
    StepLimit,
    ValidationFailed,
}

/// The orchestrator. `P` is the algorithm's payload type, `E` the shared
/// environment, `C` the component type and `Ch` the channel type.
///
/// Components and channels are registered once, during setup, and live as
/// long as the simulation; handles for both come from one monotonic counter,
/// so they never collide.
pub struct Simulation<P, E, C, Ch> {
    components: Vec<C>,
    channels: Vec<Ch>,
    scheduler: Scheduler<P>,
    env: E,
    next_id: usize,
}

impl<P, E, C: Component<P, E>, Ch: Channel<P>> Simulation<P, E, C, Ch> {
    /// The registered components, in registration order, as a `Vec` value
    /// (the shape the validation predicate sees).
    pub closed spec fn components_vec(&self) -> Vec<C> {
        self.components
    }

    /// The registered components, in registration order.
    pub open spec fn components_view(&self) -> Seq<C> {
        self.components_vec()@
    }

    /// The registered channels, in registration order.
    pub closed spec fn channels_view(&self) -> Seq<Ch> {
        self.channels@
    }

    /// The scheduler, clock included.
    pub closed spec fn sched(&self) -> Scheduler<P> {
        self.scheduler
    }

    /// The shared environment.
    pub closed spec fn env_view(&self) -> E {
        self.env
    }

    /// The next handle the shared counter will mint.
    pub closed spec fn counter(&self) -> usize {
        self.next_id
    }

    /// Whether some registered component answers to `id`.
    pub open spec fn has_component(&self, id: ComponentId) -> bool {
        exists|i: int|
            0 <= i < self.components_view().len() && (#[trigger] self.components_view()[i]).sim_id()
                == id
    }

    /// Whether some registered channel answers to `id`.
    pub open spec fn has_channel(&self, id: ChannelId) -> bool {
        exists|i: int|
            0 <= i < self.channels_view().len() && (#[trigger] self.channels_view()[i]).chan_id()
                == id
    }

    /// The driver's invariant: the scheduler is well-formed, every handle
    /// was minted by the counter, and no two registered parties share a
    /// handle — component and channel handles never collide.
    pub open spec fn inv(&self) -> bool {
        &&& self.sched().wf()
        &&& 1 <= self.counter()
        &&& forall|i: int|
            0 <= i < self.components_view().len() ==> (
            #[trigger] self.components_view()[i]).sim_id() < self.counter()
        &&& forall|i: int|
            0 <= i < self.channels_view().len() ==> (#[trigger] self.channels_view()[i]).chan_id()
                < self.counter()
        &&& forall|i: int, j: int|
            0 <= i < self.components_view().len() && 0 <= j < self.components_view().len() && i != j
                ==> (#[trigger] self.components_view()[i]).sim_id() != (
            #[trigger] self.components_view()[j]).sim_id()
        &&& forall|i: int, j: int|
            0 <= i < self.channels_view().len() && 0 <= j < self.channels_view().len() && i != j
                ==> (#[trigger] self.channels_view()[i]).chan_id() != (
            #[trigger] self.channels_view()[j]).chan_id()
        &&& forall|i: int, j: int|
            0 <= i < self.components_view().len() && 0 <= j < self.channels_view().len() ==> (
            #[trigger] self.components_view()[i]).sim_id() != (
            #[trigger] self.channels_view()[j]).chan_id()
    }

    /// A fresh simulation around the caller's environment: nothing
    /// registered, clock at zero, queue empty.
    pub fn new(env: E) -> (s: Self)
        ensures
            s.inv(),
            s.components_view() == Seq::<C>::empty(),
            s.channels_view() == Seq::<Ch>::empty(),
            s.sched().time() == 0,
            s.sched().queue().len() == 0,
            !s.sched().failed(),
            s.env_view() == env,
            s.counter() == 1,
    {
        let s = Simulation {
            components: Vec::new(),
            channels: Vec::new(),
            scheduler: Scheduler::new(),
            env,
            next_id: 1,
        };
        proof {
            assert(s.components_view() =~= Seq::<C>::empty());
            assert(s.channels_view() =~= Seq::<Ch>::empty());
        }
        s
    }

    /// Read-only access to the registered components.
    pub fn components(&self) -> (v: &Vec<C>)
        ensures
            v@ == self.components_view(),
    {
        &self.components
    }

    /// Read-only access to the scheduler, clock included.
    pub fn scheduler(&self) -> (s: &Scheduler<P>)
        ensures
            *s == self.sched(),
    {
        &self.scheduler
    }

    /// Read-only access to the shared environment.
    pub fn environment(&self) -> (e: &E)
        ensures
            *e == self.env_view(),
    {
        &self.env
    }

    /// Mints a fresh handle from the shared monotonic counter. Handles are
    /// unique across components and channels for this simulation's lifetime.
    pub fn generate_next_id(&mut self) -> (id: usize)
        requires
            old(self).counter() < usize::MAX,
        ensures
            id == old(self).counter(),
            final(self).counter() == old(self).counter() + 1,
            final(self).components_view() == old(self).components_view(),
            final(self).channels_view() == old(self).channels_view(),
            final(self).sched() == old(self).sched(),
            final(self).env_view() == old(self).env_view(),
            old(self).inv() ==> final(self).inv(),
    {
        let id = self.next_id;
        self.next_id = self.next_id + 1;
        proof {
            if old(self).inv() {
                assert(self.components_view() == old(self).components_view());
                assert(self.channels_view() == old(self).channels_view());
                assert(self.inv());
            }
        }
        id
    }

    /// Registers a new component: mints a fresh handle, asks the builder to
    /// construct the component for it, and appends it to the component set.
    pub fn add_process<B: ComponentBuilder<P, E, C>>(&mut self, builder: &mut B) -> (id:
        ComponentId)
        requires
            old(self).inv(),
            old(self).counter() < usize::MAX,
        ensures
            final(self).inv(),
            id == old(self).counter(),
            final(self).counter() == old(self).counter() + 1,
            !old(self).has_component(id),
            !old(self).has_channel(id),
            final(self).components_view().len() == old(self).components_view().len() + 1,
            forall|k: int|
                0 <= k < old(self).components_view().len() ==> final(self).components_view()[k]
                    == old(self).components_view()[k],
            final(self).components_view().last().sim_id() == id,
            final(self).components_view().last().channels() == Seq::<ChannelId>::empty(),
            final(self).has_component(id),
            final(self).channels_view() == old(self).channels_view(),
            final(self).sched() == old(self).sched(),
    {
        let id = self.generate_next_id();
        let c = builder.build_component(id, &mut self.env);
        self.components.push(c);
        proof {
            assert(self.components_view().last().sim_id() == id);
            assert forall|k: int| 0 <= k < old(self).components_view().len() implies #[trigger] self.components_view()[k]
                == old(self).components_view()[k] by {}
            assert(self.inv());
        }
        id
    }

    /// Registers a new channel between the registered components `p0` and
    /// `p1`: mints a fresh handle, asks the builder to construct the channel
    /// for it, and records the new adjacency on both endpoints — each
    /// observes exactly one `add_channel` call with the new handle.
    pub fn add_channel<B: ChannelBuilder<P, Ch>>(
        &mut self,
        p0: ComponentId,
        p1: ComponentId,
        builder: &mut B,
    ) -> (id: ChannelId)
        requires
            old(self).inv(),
            old(self).counter() < usize::MAX,
            old(self).has_component(p0),
            old(self).has_component(p1),
            p0 != p1,
        ensures
            final(self).inv(),
            id == old(self).counter(),
            final(self).counter() == old(self).counter() + 1,
            !old(self).has_channel(id),
            final(self).channels_view().len() == old(self).channels_view().len() + 1,
            forall|k: int|
                0 <= k < old(self).channels_view().len() ==> final(self).channels_view()[k] == old(self).channels_view()[k],
            final(self).channels_view().last().chan_id() == id,
            final(self).channels_view().last().left() == p0,
            final(self).channels_view().last().right() == p1,
            final(self).has_channel(id),
            final(self).components_view().len() == old(self).components_view().len(),
            forall|k: int|
                0 <= k < old(self).components_view().len() ==> (#[trigger] final(self).components_view()[k]).sim_id() == old(self).components_view()[k].sim_id(),
            forall|k: int|
                0 <= k < old(self).components_view().len() && old(self).components_view()[k].sim_id()
                    != p0 && old(self).components_view()[k].sim_id() != p1 ==> final(self).components_view()[k] == old(self).components_view()[k],
            forall|k: int|
                0 <= k < old(self).components_view().len() && (old(self).components_view()[k].sim_id()
                    == p0 || old(self).components_view()[k].sim_id() == p1) ==> (#[trigger] final(self).components_view()[k]).channels() == old(self).components_view()[
                    k
                ].channels().push(id),
            final(self).sched() == old(self).sched(),
            final(self).env_view() == old(self).env_view(),
    {
        let id = self.generate_next_id();
        let ch = builder.build_channel(id, p0, p1);
        self.channels.push(ch);
        let ghost mid = *self;
        proof {
            assert(self.components_view() == old(self).components_view());
            assert forall|k: int| 0 <= k < old(self).channels_view().len() implies #[trigger] self.channels_view()[k]
                == old(self).channels_view()[k] by {}
        }
        let i = match self.index_of_component(p0) {
            Some(i) => i,
            None => unreached(),
        };
        let mut c0 = self.components.remove(i);
        c0.add_channel(id);
        let ghost c0after = c0;
        self.components.insert(i, c0);
        proof {
            assert(self.components_view() =~= mid.components_view().update(i as int, c0after));
            assert(c0after.sim_id() == p0);
            assert(self.components_view()[i as int].sim_id() == p0);
            let j0 = choose|j0: int|
                0 <= j0 < old(self).components_view().len() && (#[trigger] old(self).components_view()[j0]).sim_id() == p1;
            assert(old(self).components_view()[i as int].sim_id() == p0);
            assert(j0 != i);
            assert(self.components_view()[j0].sim_id() == p1);
            assert(self.has_component(p1));
        }
        let j = match self.index_of_component(p1) {
            Some(j) => j,
            None => unreached(),
        };
        proof {
            assert(self.components_view()[j as int].sim_id() == p1);
            assert(j != i);
        }
        let mut c1 = self.components.remove(j);
        c1.add_channel(id);
        let ghost c1after = c1;
        self.components.insert(j, c1);
        proof {
            assert(self.components_view() =~= mid.components_view().update(i as int, c0after).update(
                j as int,
                c1after,
            ));
            assert(self.inv());
        }
        id
    }

    /// Dispatches `init` to every registered component, in registration
    /// order, while the clock is still at zero. Each component is
    /// initialized exactly once; none changes its identity or adjacency.
    pub fn call_init(&mut self)
        requires
            old(self).inv(),
            old(self).sched().time() == 0,
        ensures
            final(self).inv(),
            final(self).sched().time() == 0,
            final(self).components_view().len() == old(self).components_view().len(),
            forall|k: int|
                0 <= k < old(self).components_view().len() ==> (#[trigger] final(self).components_view()[k]).sim_id() == old(self).components_view()[k].sim_id() && final(self).components_view()[k].channels() == old(self).components_view()[k].channels(),
            final(self).channels_view() == old(self).channels_view(),
            final(self).counter() == old(self).counter(),
    {
        let mut k: usize = 0;
        while k < self.components.len()
            invariant
                self.inv(),
                self.sched().time() == 0,
                k <= self.components_view().len(),
                self.components_view().len() == old(self).components_view().len(),
                forall|j: int|
                    0 <= j < old(self).components_view().len() ==> (
                    #[trigger] self.components_view()[j]).sim_id() == old(self).components_view()[
                        j
                    ].sim_id() && self.components_view()[j].channels() == old(self).components_view()[j].channels(),
                self.channels_view() == old(self).channels_view(),
                self.counter() == old(self).counter(),
            decreases self.components_view().len() - k,
        {
            let ghost iter_pre = *self;
            let mut c = self.components.remove(k);
            c.init(&mut self.scheduler, &mut self.env);
            let ghost cafter = c;
            self.components.insert(k, c);
            proof {
                assert(self.components_view() =~= iter_pre.components_view().update(
                    k as int,
                    cafter,
                ));
            }
            k += 1;
        }
    }

    /// Dispatches `terminate` to every registered component exactly once, in
    /// registration order, then runs the caller's validation predicate once
    /// over the complete, final component set. Returns `Ok` exactly when the
    /// predicate accepted; a rejection is the fatal end-of-run validation
    /// failure, reported as `Err(SimError::ValidationFailed)`.
    pub fn call_terminate<F: Fn(&Vec<C>) -> bool>(&mut self, validate: F) -> (r: Result<
        (),
        SimError,
    >)
        requires
            old(self).inv(),
            forall|v: &Vec<C>| #[trigger] validate.requires((v,)),
        ensures
            final(self).inv(),
            final(self).components_view().len() == old(self).components_view().len(),
            forall|k: int|
                0 <= k < old(self).components_view().len() ==> (#[trigger] final(self).components_view()[k]).sim_id() == old(self).components_view()[k].sim_id() && final(self).components_view()[k].channels() == old(self).components_view()[k].channels(),
            final(self).channels_view() == old(self).channels_view(),
            final(self).sched() == old(self).sched(),
            final(self).counter() == old(self).counter(),
            r == Ok::<(), SimError>(()) || r == Err::<(), SimError>(SimError::ValidationFailed),
            exists|b: bool|
                #[trigger] validate.ensures((&final(self).components_vec(),), b) && ((r == Ok::<
                    (),
                    SimError,
                >(())) <==> b),
    {
        let mut k: usize = 0;
        while k < self.components.len()
            invariant
                self.inv(),
                k <= self.components_view().len(),
                self.components_view().len() == old(self).components_view().len(),
                forall|j: int|
                    0 <= j < old(self).components_view().len() ==> (
                    #[trigger] self.components_view()[j]).sim_id() == old(self).components_view()[
                        j
                    ].sim_id() && self.components_view()[j].channels() == old(self).components_view()[j].channels(),
                self.channels_view() == old(self).channels_view(),
                self.sched() == old(self).sched(),
                self.counter() == old(self).counter(),
            decreases self.components_view().len() - k,
        {
            let ghost iter_pre = *self;
            let mut c = self.components.remove(k);
            c.terminate(&mut self.env);
            let ghost cafter = c;
            self.components.insert(k, c);
            proof {
                assert(self.components_view() =~= iter_pre.components_view().update(
                    k as int,
                    cafter,
                ));
            }
            k += 1;
        }
        let ok = validate(&self.components);
        if ok {
            Ok(())
        } else {
            Err(SimError::ValidationFailed)
        }
    }

    /// What routing entry `i` of the pre-state queue does. The clock stands
    /// at the entry's time. A wakeup or a delivery goes to the addressed
    /// component, which may change its own algorithm state (never its
    /// identity or adjacency) and schedule further events; a send goes to
    /// the addressed channel, which schedules exactly one delivery to its
    /// other endpoint after its own delay. An event whose target nobody
    /// holds, a send from a component that is not an endpoint of the channel
    /// it used, and a delivery time beyond the clock's range are fatal: the
    /// matching error comes back and nothing is dispatched.
    pub open spec fn dispatched(pre: Self, post: Self, r: Result<bool, SimError>, i: int) -> bool {
        let t = pre.sched().queue()[i].0;
        let ev = pre.sched().queue()[i].1;
        let rest = pre.sched().queue().remove(i);
        &&& post.sched().time() == t
        &&& post.counter() == pre.counter()
        &&& match ev {
            EventType::ProcessEvent(pe) => Self::delivered(pre, post, r, rest, pe.receiver),
            EventType::MsgRcvEvent(re) => Self::delivered(pre, post, r, rest, re.receiver),
            EventType::MsgSendEvent(me) => {
                if !pre.has_channel(me.channel) {
                    &&& r == Err::<bool, SimError>(SimError::UnknownChannel(me.channel))
                    &&& Self::dropped(pre, post, rest)
                } else {
                    forall|h: int|
                        0 <= h < pre.channels_view().len() && (#[trigger] pre.channels_view()[
                            h
                        ]).chan_id() == me.channel ==> {
                            let ch = pre.channels_view()[h];
                            if me.sender != ch.left() && me.sender != ch.right() {
                                &&& r == Err::<bool, SimError>(
                                    SimError::ForeignSender(me.channel, me.sender),
                                )
                                &&& Self::dropped(pre, post, rest)
                            } else if t + ch.delay() > u64::MAX {
                                &&& r == Err::<bool, SimError>(SimError::ClockOverflow(me.channel))
                                &&& Self::dropped(pre, post, rest)
                            } else {
                                &&& r == Ok::<bool, SimError>(true)
                                &&& post.sched().queue() == rest.push(
                                    (
                                        (t + ch.delay()) as nat,
                                        EventType::MsgRcvEvent(
                                            MessageRcvEvent {
                                                channel: me.channel,
                                                receiver: if me.sender == ch.left() {
                                                    ch.right()
                                                } else {
                                                    ch.left()
                                                },
                                                message: me.message,
                                            },
                                        ),
                                    ),
                                )
                                &&& post.sched().failed() == pre.sched().failed()
                                &&& post.components_view() == pre.components_view()
                                &&& post.env_view() == pre.env_view()
                                &&& post.channels_view().len() == pre.channels_view().len()
                                &&& forall|k: int|
                                    0 <= k < pre.channels_view().len() && k != h ==> (
                                    #[trigger] post.channels_view()[k]) == pre.channels_view()[k]
                                &&& post.channels_view()[h].chan_id() == ch.chan_id()
                                &&& post.channels_view()[h].left() == ch.left()
                                &&& post.channels_view()[h].right() == ch.right()
                                &&& post.channels_view()[h].delay() == ch.delay()
                            }
                        }
                }
            },
            EventType::EndSimulation => false,
        }
    }

    /// The dispatch of a wakeup or a delivery addressed to `target`: if the
    /// handle is registered, that one component alone is dispatched to; if
    /// not, `UnknownComponent` comes back and nothing is dispatched.
    pub open spec fn delivered(
        pre: Self,
        post: Self,
        r: Result<bool, SimError>,
        rest: Seq<(nat, EventType<P>)>,
        target: ComponentId,
    ) -> bool {
        if pre.has_component(target) {
            &&& r == Ok::<bool, SimError>(true)
            &&& post.components_view().len() == pre.components_view().len()
            &&& forall|k: int|
                0 <= k < pre.components_view().len() ==> (#[trigger] post.components_view()[
                    k
                ]).sim_id() == pre.components_view()[k].sim_id() && post.components_view()[
                    k
                ].channels() == pre.components_view()[k].channels()
            &&& forall|k: int|
                0 <= k < pre.components_view().len() && pre.components_view()[k].sim_id() != target
                    ==> (#[trigger] post.components_view()[k]) == pre.components_view()[k]
            &&& post.channels_view() == pre.channels_view()
        } else {
            &&& r == Err::<bool, SimError>(SimError::UnknownComponent(target))
            &&& Self::dropped(pre, post, rest)
        }
    }

    /// A fatal routing failure: the popped event is consumed, the clock
    /// stands at its time, and nothing else moves.
    pub open spec fn dropped(pre: Self, post: Self, rest: Seq<(nat, EventType<P>)>) -> bool {
        &&& post.sched().queue() == rest
        &&& post.sched().failed() == pre.sched().failed()
        &&& post.components_view() == pre.components_view()
        &&& post.channels_view() == pre.channels_view()
        &&& post.env_view() == pre.env_view()
    }

    /// Pops one event and routes it. Returns `Ok(false)`, changing nothing,
    /// when the queue is exhausted or the sticky failure flag is set;
    /// `Ok(true)` after a dispatched event; an error for the fatal routing
    /// failures spelled out in [`Self::dispatched`]. The popped event is the
    /// earliest-time one (equal times: the earliest scheduled), so the clock
    /// never regresses.
    pub fn step(&mut self) -> (r: Result<bool, SimError>)
        requires
            old(self).inv(),
        ensures
            final(self).inv(),
            final(self).sched().time() >= old(self).sched().time(),
            old(self).sched().failed() || old(self).sched().queue().len() == 0 ==> r == Ok::<
                bool,
                SimError,
            >(false) && *final(self) == *old(self),
            !old(self).sched().failed() && old(self).sched().queue().len() > 0 ==> {
                &&& is_first_min(
                    old(self).sched().queue(),
                    first_min_index(old(self).sched().queue()),
                )
                &&& Self::dispatched(
                    *old(self),
                    *final(self),
                    r,
                    first_min_index(old(self).sched().queue()),
                )
            },
    {
        let ghost pre = *old(self);
        let ev = self.scheduler.next_event();
        let ghost i = first_min_index(pre.sched().queue());
        proof {
            if !pre.sched().failed() && pre.sched().queue().len() > 0 {
                assert(Scheduler::<P>::popped_at(pre.sched(), self.sched(), ev, i));
                assert(entry_wf(pre.sched().time(), pre.sched().queue()[i]));
            }
        }
        match ev {
            EventType::EndSimulation => {
                proof {
                    if !pre.sched().failed() && pre.sched().queue().len() > 0 {
                        assert(entry_wf(pre.sched().time(), pre.sched().queue()[i]));
                        assert(!(pre.sched().queue()[i].1 is EndSimulation));
                        assert(false);
                    }
                    assert(*self == *old(self));
                    assert(self.inv());
                }
                Ok(false)
            },
            EventType::ProcessEvent(pe) => {
                let ghost popped = *self;
                match self.index_of_component(pe.receiver) {
                    None => {
                        proof {
                            assert(self.components_view() == pre.components_view());
                            assert(!pre.has_component(pe.receiver));
                            assert(Self::dispatched(
                                pre,
                                *self,
                                Err::<bool, SimError>(SimError::UnknownComponent(pe.receiver)),
                                i,
                            ));
                            assert(self.inv());
                        }
                        Err(SimError::UnknownComponent(pe.receiver))
                    },
                    Some(ci) => {
                        let mut c = self.components.remove(ci);
                        c.process_event(pe.sender, pe.event, &mut self.scheduler, &mut self.env);
                        let ghost cafter = c;
                        self.components.insert(ci, c);
                        proof {
                            assert(self.components_view() =~= popped.components_view().update(
                                ci as int,
                                cafter,
                            ));
                            assert(popped.components_view() == pre.components_view());
                            assert((pre.components_view()[ci as int]).sim_id() == pe.receiver);
                            assert(pre.has_component(pe.receiver));
                            assert(self.sched().time() == pre.sched().queue()[i].0);
                            assert(Self::delivered(
                                pre,
                                *self,
                                Ok::<bool, SimError>(true),
                                pre.sched().queue().remove(i),
                                pe.receiver,
                            ));
                            assert(pre.sched().queue()[i].1 == EventType::ProcessEvent(pe));
                            assert(Self::dispatched(pre, *self, Ok::<bool, SimError>(true), i));
                        }
                        Ok(true)
                    },
                }
            },
            EventType::MsgRcvEvent(re) => {
                let ghost popped = *self;
                match self.index_of_component(re.receiver) {
                    None => {
                        proof {
                            assert(self.components_view() == pre.components_view());
                            assert(!pre.has_component(re.receiver));
                            assert(Self::dispatched(
                                pre,
                                *self,
                                Err::<bool, SimError>(SimError::UnknownComponent(re.receiver)),
                                i,
                            ));
                            assert(self.inv());
                        }
                        Err(SimError::UnknownComponent(re.receiver))
                    },
                    Some(ci) => {
                        let mut c = self.components.remove(ci);
                        c.receive_msg(re.channel, re.message, &mut self.scheduler, &mut self.env);
                        let ghost cafter = c;
                        self.components.insert(ci, c);
                        proof {
                            assert(self.components_view() =~= popped.components_view().update(
                                ci as int,
                                cafter,
                            ));
                            assert(popped.components_view() == pre.components_view());
                            assert((pre.components_view()[ci as int]).sim_id() == re.receiver);
                            assert(pre.has_component(re.receiver));
                            assert(self.sched().time() == pre.sched().queue()[i].0);
                            assert(Self::delivered(
                                pre,
                                *self,
                                Ok::<bool, SimError>(true),
                                pre.sched().queue().remove(i),
                                re.receiver,
                            ));
                            assert(pre.sched().queue()[i].1 == EventType::MsgRcvEvent(re));
                            assert(Self::dispatched(pre, *self, Ok::<bool, SimError>(true), i));
                        }
                        Ok(true)
                    },
                }
            },
            EventType::MsgSendEvent(me) => {
                let ghost popped = *self;
                match self.index_of_channel(me.channel) {
                    None => {
                        proof {
                            assert(self.channels_view() == pre.channels_view());
                            assert(!pre.has_channel(me.channel));
                            assert(Self::dispatched(
                                pre,
                                *self,
                                Err::<bool, SimError>(SimError::UnknownChannel(me.channel)),
                                i,
                            ));
                            assert(self.inv());
                        }
                        Err(SimError::UnknownChannel(me.channel))
                    },
                    Some(hi) => {
                        let mut ch = self.channels.remove(hi);
                        let ghost chbefore = ch;
                        proof {
                            assert(popped.channels_view() == pre.channels_view());
                            assert(chbefore == pre.channels_view()[hi as int]);
                            assert((pre.channels_view()[hi as int]).chan_id() == me.channel);
                            assert(pre.has_channel(me.channel));
                            assert forall|h: int|
                                0 <= h < pre.channels_view().len() && (
                                #[trigger] pre.channels_view()[h]).chan_id() == me.channel implies h
                                == hi as int by {}
                        }
                        let (lft, rgt) = ch.endpoints();
                        if me.sender != lft && me.sender != rgt {
                            self.channels.insert(hi, ch);
                            proof {
                                assert(self.channels_view() =~= popped.channels_view());
                                assert(Self::dispatched(
                                    pre,
                                    *self,
                                    Err::<bool, SimError>(
                                        SimError::ForeignSender(me.channel, me.sender),
                                    ),
                                    i,
                                ));
                                assert(self.inv());
                            }
                            Err(SimError::ForeignSender(me.channel, me.sender))
                        } else {
                            let d = ch.delay_nanos();
                            let now = self.scheduler.get_curr_time().as_nanos();
                            proof {
                                assert(now == pre.sched().queue()[i].0);
                            }
                            if now <= u64::MAX - d {
                                ch.message_from(me.sender, me.message, &mut self.scheduler);
                                let ghost chafter = ch;
                                self.channels.insert(hi, ch);
                                proof {
                                    assert(self.channels_view() =~= popped.channels_view().update(
                                        hi as int,
                                        chafter,
                                    ));
                                    assert(self.sched().time() == pre.sched().queue()[i].0);
                                    assert(pre.sched().queue()[i].1 == EventType::MsgSendEvent(me));
                                    assert(Self::dispatched(pre, *self, Ok::<bool, SimError>(true), i));
                                    assert(self.inv());
                                }
                                Ok(true)
                            } else {
                                self.channels.insert(hi, ch);
                                proof {
                                    assert(self.channels_view() =~= popped.channels_view());
                                    assert(pre.sched().queue()[i].0 + chbefore.delay() > u64::MAX);
                                    assert(Self::dispatched(
                                        pre,
                                        *self,
                                        Err::<bool, SimError>(SimError::ClockOverflow(me.channel)),
                                        i,
                                    ));
                                    assert(self.inv());
                                }
                                Err(SimError::ClockOverflow(me.channel))
                            }
                        }
                    },
                }
            },
        }
    }

    /// Steps until the queue is exhausted or the run has failed, whichever
    /// comes first, passing any fatal routing failure through. The clock
    /// never regresses along the way. Success is owed whenever nothing is
    /// left to dispatch: with the sticky failure flag already set, or the
    /// queue already empty, `run` returns `Ok(())` and touches nothing — in
    /// particular, a failed run still lets [`Self::call_terminate`] execute
    /// afterwards. A run that dispatches `usize::MAX` events without
    /// draining the queue stops with `StepLimit`, so that every run provably
    /// ends.
    pub fn run(&mut self) -> (r: Result<(), SimError>)
        requires
            old(self).inv(),
        ensures
            final(self).inv(),
            final(self).sched().time() >= old(self).sched().time(),
            final(self).counter() == old(self).counter(),
            old(self).sched().failed() || old(self).sched().queue().len() == 0 ==> r == Ok::<
                (),
                SimError,
            >(()) && *final(self) == *old(self),
            r == Ok::<(), SimError>(()) ==> final(self).sched().failed() || final(self).sched().queue().len() == 0,
            r matches Err(e) ==> !(e is ValidationFailed),
    {
        let mut going = true;
        let mut fuel: usize = usize::MAX;
        let mut outcome: Result<(), SimError> = Ok(());
        while going && fuel > 0
            invariant
                self.inv(),
                self.sched().time() >= old(self).sched().time(),
                self.counter() == old(self).counter(),
                going ==> outcome == Ok::<(), SimError>(()),
                !going ==> (outcome == Ok::<(), SimError>(()) ==> self.sched().failed()
                    || self.sched().queue().len() == 0),
                !going ==> (outcome matches Err(e) ==> !(e is ValidationFailed)),
                old(self).sched().failed() || old(self).sched().queue().len() == 0 ==> {
                    &&& outcome == Ok::<(), SimError>(())
                    &&& *self == *old(self)
                    &&& (going ==> fuel == usize::MAX)
                },
            decreases fuel,
        {
            fuel = fuel - 1;
            match self.step() {
                Ok(true) => {},
                Ok(false) => {
                    going = false;
                },
                Err(e) => {
                    going = false;
                    outcome = Err(e);
                },
            }
        }
        if going {
            return Err(SimError::StepLimit);
        }
        outcome
    }

    /// The index of the component registered under `id`, if any.
    fn index_of_component(&self, id: ComponentId) -> (r: Option<usize>)
        ensures
            match r {
                Some(i) => i < self.components_view().len() && self.components_view()[i as int].sim_id() == id,
                None => !self.has_component(id),
            },
    {
        let mut k: usize = 0;
        while k < self.components.len()
            invariant
                k <= self.components_view().len(),
                forall|j: int|
                    0 <= j < k ==> (#[trigger] self.components_view()[j]).sim_id() != id,
            decreases self.components_view().len() - k,
        {
            if self.components[k].id() == id {
                return Some(k);
            }
            k += 1;
        }
        None
    }

    /// The index of the channel registered under `id`, if any.
    fn index_of_channel(&self, id: ChannelId) -> (r: Option<usize>)
        ensures
            match r {
                Some(i) => i < self.channels_view().len() && self.channels_view()[i as int].chan_id() == id,
                None => !self.has_channel(id),
            },
    {
        let mut k: usize = 0;
        while k < self.channels.len()
            invariant
                k <= self.channels_view().len(),
                forall|j: int| 0 <= j < k ==> (#[trigger] self.channels_view()[j]).chan_id() != id,
            decreases self.channels_view().len() - k,
        {
            if self.channels[k].id() == id {
                return Some(k);
            }
            k += 1;
        }
        None
    }
}

} // verus!
