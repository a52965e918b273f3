//! The component capability set: the unit of algorithm behaviour.
//!
//! A component reacts to lifecycle and message events and records its own
//! channel adjacency. It never holds a reference to another component, only
//! handles. `P` is the algorithm's message payload type, which the framework
//! itself never interprets; `E` is the shared environment type owned by the
//! driver.

use crate::keys::{ChannelId, ComponentId};
use crate::scheduler::Scheduler;
use vstd::prelude::*;

verus! {

/// What every component must implement. The contracts are the framework's
/// dispatch discipline: a dispatch call may schedule new events and flag a
/// failure, but it never moves time, and it never changes the component's
/// identity or adjacency, which only the driver extends.
pub trait Component<P, E>: Sized {
    /// The handle this component was registered under.
    spec fn sim_id(&self) -> ComponentId;

    /// The channels this component is adjacent to, in the order the driver
    /// wired them: its neighbour list for any broadcast behaviour.
    spec fn channels(&self) -> Seq<ChannelId>;

    /// Executable access to the component's own handle.
    fn id(&self) -> (r: ComponentId)
        ensures
            r == self.sim_id(),
    ;

    /// Called exactly once per component during setup, before the run loop
    /// starts, while the clock is still at zero. Cross-component init order
    /// is unspecified: an implementation must not depend on another
    /// component having initialized already.
    fn init(&mut self, scheduler: &mut Scheduler<P>, env: &mut E)
        requires
            old(scheduler).wf(),
            old(scheduler).time() == 0,
        ensures
            final(scheduler).wf(),
            final(scheduler).time() == 0,
            final(self).sim_id() == old(self).sim_id(),
            final(self).channels() == old(self).channels(),
    ;

    /// Handles a self-addressed wakeup. A `ProcessEvent` is always
    /// self-dispatched, so `sender` is this component's own handle.
    fn process_event(
        &mut self,
        sender: ComponentId,
        event: P,
        scheduler: &mut Scheduler<P>,
        env: &mut E,
    )
        requires
            old(scheduler).wf(),
            sender == old(self).sim_id(),
        ensures
            final(scheduler).wf(),
            final(scheduler).time() == old(scheduler).time(),
            final(self).sim_id() == old(self).sim_id(),
            final(self).channels() == old(self).channels(),
    ;

    /// Handles a message delivered on channel `channel`. The component alone
    /// interprets the payload, and may schedule further sends.
    fn receive_msg(
        &mut self,
        channel: ChannelId,
        message: P,
        scheduler: &mut Scheduler<P>,
        env: &mut E,
    )
        requires
            old(scheduler).wf(),
        ensures
            final(scheduler).wf(),
            final(scheduler).time() == old(scheduler).time(),
            final(self).sim_id() == old(self).sim_id(),
            final(self).channels() == old(self).channels(),
    ;

    /// Called exactly once per component after the event queue is exhausted
    /// (or the run was aborted), in unspecified order, for final
    /// bookkeeping and self-validation.
    fn terminate(&mut self, env: &mut E)
        ensures
            final(self).sim_id() == old(self).sim_id(),
            final(self).channels() == old(self).channels(),
    ;

    /// Called by the driver during topology setup: records one new
    /// adjacency, leaving every earlier one in place.
    fn add_channel(&mut self, channel: ChannelId)
        ensures
            final(self).sim_id() == old(self).sim_id(),
            final(self).channels() == old(self).channels().push(channel),
    ;
}

/// The state every component needs: its own handle and its adjacency list.
/// Concrete components hold one of these and delegate the bookkeeping to it.
pub struct ComponentBase {
    pub id: ComponentId,
    pub channels: Vec<ChannelId>,
}

impl ComponentBase {
    /// A base for a freshly built component: no adjacencies yet.
    pub fn new(id: ComponentId) -> (b: Self)
        ensures
            b.id == id,
            b.channels@ == Seq::<ChannelId>::empty(),
    {
        let b = ComponentBase { id, channels: Vec::new() };
        proof {
            assert(b.channels@ =~= Seq::<ChannelId>::empty());
        }
        b
    }

    /// Records one new adjacency.
    pub fn add_channel(&mut self, channel: ChannelId)
        ensures
            final(self).id == old(self).id,
            final(self).channels@ == old(self).channels@.push(channel),
    {
        self.channels.push(channel);
    }
}

/// Builds components for the driver: asked once per
/// [`crate::sim::Simulation::add_process`] call, with the freshly minted
/// handle. A builder may hold cross-call state, such as whether a
/// distinguished instance has been assigned yet.
pub trait ComponentBuilder<P, E, C: Component<P, E>> {
    /// Constructs the component registered under `id`. The result answers to
    /// that handle and starts with no adjacencies.
    fn build_component(&mut self, id: ComponentId, env: &mut E) -> (c: C)
        ensures
            c.sim_id() == id,
            c.channels() == Seq::<ChannelId>::empty(),
    ;
}

} // verus!
