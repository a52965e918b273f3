//! Spanning-tree marking: an example algorithm on top of the engine.
//!
//! One distinguished process (the root) wakes up at time zero and floods a
//! marking message. Every other process, on first receipt, records which
//! neighbour marked it and on whose behalf, forwards the message on every
//! neighbour channel except the one it arrived on, and ignores later
//! receipts. When the queue drains, the marked parent links form a spanning
//! tree of the connected component containing the root.

use crate::component::{Component, ComponentBase, ComponentBuilder};
use crate::channel::{ChannelBuilder, DelayChannel};
use crate::keys::{ChannelId, ComponentId};
use crate::scheduler::{no_delta, Scheduler, SimTimeDelta};
use vstd::prelude::*;

verus! {

/// The algorithm's payload: the wakeup that starts the root, and the marking
/// message carrying the root's identity and the forwarding process's own
/// identity. Identities are algorithm-level, independent of the engine's
/// handle space.
#[derive(Debug, Clone, Copy, PartialEq, Eq, Structural)]
pub enum Message {
    Wake,
    Mark { root: u64, sender: u64 },
}

/// A process's marking state. `Marked` records the identity of the root it
/// was marked for and of the neighbour that marked it (its tree parent).
#[derive(Debug, Clone, Copy, PartialEq, Eq, Structural)]
pub enum State {
    Root,
    Unmarked,
    Marked { parent: u64, root: u64 },
}

/// One participant in the marking algorithm.
pub struct Process {
    pub base: ComponentBase,
    pub uid: u64,
    pub state: State,
    pub terminate_count: u64,
}

impl<E> Component<Message, E> for Process {
    open spec fn sim_id(&self) -> ComponentId {
        self.base.id
    }

    open spec fn channels(&self) -> Seq<ChannelId> {
        self.base.channels@
    }

    fn id(&self) -> ComponentId {
        self.base.id
    }

    /// The root schedules its own wakeup at time zero; everyone else waits.
    fn init(&mut self, scheduler: &mut Scheduler<Message>, env: &mut E) {
        match self.state {
            State::Root => {
                scheduler.sched_self_event(no_delta(), self.base.id, Message::Wake);
            },
            _ => {},
        }
    }

    /// The wakeup: send the marking message on every neighbour channel.
    fn process_event(
        &mut self,
        sender: ComponentId,
        event: Message,
        scheduler: &mut Scheduler<Message>,
        env: &mut E,
    ) {
        let ghost t0 = scheduler.time();
        let mut k: usize = 0;
        while k < self.base.channels.len()
            invariant
                scheduler.wf(),
                scheduler.time() == t0,
                k <= self.base.channels@.len(),
            decreases self.base.channels@.len() - k,
        {
            let c = self.base.channels[k];
            scheduler.send_msg(
                self.base.id,
                c,
                Message::Mark { root: self.uid, sender: self.uid },
            );
            k += 1;
        }
    }

    /// First receipt of a marking message marks this process and forwards it
    /// on every neighbour channel but the incoming one; later receipts are
    /// ignored. A wakeup payload here, or a marking message reaching the
    /// root, is a state the algorithm declares impossible: the run is
    /// aborted through the scheduler's failure flag.
    fn receive_msg(
        &mut self,
        channel: ChannelId,
        message: Message,
        scheduler: &mut Scheduler<Message>,
        env: &mut E,
    ) {
        match message {
            Message::Wake => {
                scheduler.sim_error();
            },
            Message::Mark { root, sender } => {
                match self.state {
                    State::Unmarked => {
                        let ghost t0 = scheduler.time();
                        let mut k: usize = 0;
                        while k < self.base.channels.len()
                            invariant
                                scheduler.wf(),
                                scheduler.time() == t0,
                                k <= self.base.channels@.len(),
                            decreases self.base.channels@.len() - k,
                        {
                            let c = self.base.channels[k];
                            if c != channel {
                                scheduler.send_msg(
                                    self.base.id,
                                    c,
                                    Message::Mark { root, sender: self.uid },
                                );
                            }
                            k += 1;
                        }
                        self.state = State::Marked { parent: sender, root };
                    },
                    State::Root => {
                        scheduler.sim_error();
                    },
                    State::Marked { .. } => {},
                }
            },
        }
    }

    /// Final bookkeeping: counts the call, so a finished run shows each
    /// process was terminated exactly once. Whether the marking converged is
    /// the validation predicate's question, not this method's.
    fn terminate(&mut self, env: &mut E) {
        if self.terminate_count < u64::MAX {
            self.terminate_count = self.terminate_count + 1;
        }
    }

    fn add_channel(&mut self, channel: ChannelId) {
        self.base.add_channel(channel);
    }
}

/// Builds marking processes. The first process built becomes the root;
/// identities are handed out sequentially from `next_uid` (identity
/// generation is a collaborator of the algorithm, not of the engine).
pub struct ProcessBuilder {
    pub next_uid: u64,
    pub has_root: bool,
}

impl ProcessBuilder {
    /// A builder that has not assigned the root yet.
    pub fn new(first_uid: u64) -> (b: Self)
        ensures
            b.next_uid == first_uid,
            !b.has_root,
    {
        ProcessBuilder { next_uid: first_uid, has_root: false }
    }
}

impl<E> ComponentBuilder<Message, E, Process> for ProcessBuilder {
    fn build_component(&mut self, id: ComponentId, env: &mut E) -> (c: Process) {
        let state = if self.has_root {
            State::Unmarked
        } else {
            State::Root
        };
        self.has_root = true;
        let uid = self.next_uid;
        if self.next_uid < u64::MAX {
            self.next_uid = self.next_uid + 1;
        }
        Process { base: ComponentBase::new(id), uid, state, terminate_count: 0 }
    }
}

/// Builds [`DelayChannel`]s that all share one fixed delay. Wiring parts of
/// a topology through differently configured builders gives each channel its
/// own per-instance delay.
pub struct FixedDelayChannelBuilder {
    pub delay: SimTimeDelta,
}

impl ChannelBuilder<Message, DelayChannel> for FixedDelayChannelBuilder {
    fn build_channel(&mut self, id: ChannelId, left: ComponentId, right: ComponentId) -> (ch:
        DelayChannel) {
        DelayChannel { id, left, right, delay: self.delay }
    }
}

} // verus!
