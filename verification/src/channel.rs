//! The channel capability set: a two-endpoint delayed link.
//!
//! A channel accepts a message from one of its endpoints and arranges
//! delivery to the other endpoint after its own per-instance delay. It is
//! pure routing: the payload is never interpreted.

use crate::keys::{ChannelId, ComponentId};
use crate::scheduler::{EventType, MessageRcvEvent, Scheduler};
use vstd::prelude::*;

verus! {

/// What every channel must implement. The delay policy is the channel's own
/// (a fixed constant, or chosen at construction and fixed thereafter), but
/// delivery is pinned down: a message handed in by one endpoint at time `t`
/// is scheduled for the other endpoint at exactly `t + delay`.
pub trait Channel<P>: Sized {
    /// The handle this channel was registered under.
    spec fn chan_id(&self) -> ChannelId;

    /// One of the two endpoint components.
    spec fn left(&self) -> ComponentId;

    /// The other endpoint component.
    spec fn right(&self) -> ComponentId;

    /// This instance's transit delay, in nanoseconds of simulated time.
    spec fn delay(&self) -> nat;

    /// Executable access to the channel's own handle.
    fn id(&self) -> (r: ChannelId)
        ensures
            r == self.chan_id(),
    ;

    /// Executable access to the two endpoints.
    fn endpoints(&self) -> (r: (ComponentId, ComponentId))
        ensures
            r.0 == self.left(),
            r.1 == self.right(),
    ;

    /// Executable access to the transit delay.
    fn delay_nanos(&self) -> (d: u64)
        ensures
            d == self.delay(),
    ;

    /// Accepts a message originating at endpoint `sender` and schedules its
    /// delivery to the other endpoint after this channel's delay. Exactly
    /// one `MsgRcvEvent` joins the queue, addressed to the endpoint the
    /// message did not come from, carrying the payload untouched.
    fn message_from(&mut self, sender: ComponentId, message: P, scheduler: &mut Scheduler<P>)
        requires
            old(scheduler).wf(),
            sender == old(self).left() || sender == old(self).right(),
            old(scheduler).time() + old(self).delay() <= u64::MAX,
        ensures
            final(self).chan_id() == old(self).chan_id(),
            final(self).left() == old(self).left(),
            final(self).right() == old(self).right(),
            final(self).delay() == old(self).delay(),
            final(scheduler).wf(),
            final(scheduler).time() == old(scheduler).time(),
            final(scheduler).failed() == old(scheduler).failed(),
            final(scheduler).queue() == old(scheduler).queue().push(
                (
                    (old(scheduler).time() + old(self).delay()) as nat,
                    EventType::MsgRcvEvent(
                        MessageRcvEvent {
                            channel: old(self).chan_id(),
                            receiver: if sender == old(self).left() {
                                old(self).right()
                            } else {
                                old(self).left()
                            },
                            message,
                        },
                    ),
                ),
            ),
    ;
}

/// Builds channels for the driver: asked once per
/// [`crate::sim::Simulation::add_channel`] call, with the freshly minted
/// handle and the two endpoints. The builder decides the delay policy.
pub trait ChannelBuilder<P, Ch: Channel<P>> {
    /// Constructs the channel registered under `id` linking `left` and
    /// `right`.
    fn build_channel(&mut self, id: ChannelId, left: ComponentId, right: ComponentId) -> (ch: Ch)
        ensures
            ch.chan_id() == id,
            ch.left() == left,
            ch.right() == right,
    ;
}

/// A channel with a fixed per-instance delay, chosen when it was built.
pub struct DelayChannel {
    pub id: ChannelId,
    pub left: ComponentId,
    pub right: ComponentId,
    pub delay: crate::scheduler::SimTimeDelta,
}

impl<P> Channel<P> for DelayChannel {
    open spec fn chan_id(&self) -> ChannelId {
        self.id
    }

    open spec fn left(&self) -> ComponentId {
        self.left
    }

    open spec fn right(&self) -> ComponentId {
        self.right
    }

    open spec fn delay(&self) -> nat {
        self.delay@
    }

    fn id(&self) -> (r: ChannelId) {
        self.id
    }

    fn endpoints(&self) -> (r: (ComponentId, ComponentId)) {
        (self.left, self.right)
    }

    fn delay_nanos(&self) -> (d: u64) {
        self.delay.as_nanos()
    }

    fn message_from(&mut self, sender: ComponentId, message: P, scheduler: &mut Scheduler<P>) {
        let receiver = if sender == self.left { self.right } else { self.left };
        scheduler.sched_receive_msg(self.delay, receiver, self.id, message);
    }
}

} // verus!
