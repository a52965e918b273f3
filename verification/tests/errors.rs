use d2simrs::channel::DelayChannel;
use d2simrs::component::{Component, ComponentBase, ComponentBuilder};
use d2simrs::keys::{ChannelId, ComponentId};
use d2simrs::scheduler::{Scheduler, SimTimeDelta};
use d2simrs::sim::{SimError, Simulation};
use d2simrs::spanning_tree::{FixedDelayChannelBuilder, Message};

/// A component that misbehaves on purpose: at init it schedules a send on
/// the channel handle it was configured with, whether or not it has any
/// business doing so. Zero means it stays silent.
struct Rogue {
    base: ComponentBase,
    bogus_channel: ChannelId,
}

impl<E> Component<Message, E> for Rogue {
    // The two ghost views are never evaluated at run time.
    fn sim_id(&self) -> ComponentId {
        unreachable!()
    }

    fn channels(&self) -> vstd::seq::Seq<ChannelId> {
        unreachable!()
    }

    fn id(&self) -> ComponentId {
        self.base.id
    }

    fn init(&mut self, scheduler: &mut Scheduler<Message>, _env: &mut E) {
        if self.bogus_channel != 0 {
            scheduler.send_msg(self.base.id, self.bogus_channel, Message::Wake);
        }
    }

    fn process_event(
        &mut self,
        _sender: ComponentId,
        _event: Message,
        _scheduler: &mut Scheduler<Message>,
        _env: &mut E,
    ) {
    }

    fn receive_msg(
        &mut self,
        _channel: ChannelId,
        _message: Message,
        _scheduler: &mut Scheduler<Message>,
        _env: &mut E,
    ) {
    }

    fn terminate(&mut self, _env: &mut E) {}

    fn add_channel(&mut self, channel: ChannelId) {
        self.base.add_channel(channel);
    }
}

struct RogueBuilder {
    bogus_channel: ChannelId,
}

impl<E> ComponentBuilder<Message, E, Rogue> for RogueBuilder {
    fn build_component(&mut self, id: ComponentId, _env: &mut E) -> Rogue {
        Rogue { base: ComponentBase::new(id), bogus_channel: self.bogus_channel }
    }
}

/// A component that queues a wakeup for itself and then flags the run as
/// failed, so the wakeup must never be dispatched.
struct Saboteur {
    base: ComponentBase,
}

impl<E> Component<Message, E> for Saboteur {
    fn sim_id(&self) -> ComponentId {
        unreachable!()
    }

    fn channels(&self) -> vstd::seq::Seq<ChannelId> {
        unreachable!()
    }

    fn id(&self) -> ComponentId {
        self.base.id
    }

    fn init(&mut self, scheduler: &mut Scheduler<Message>, _env: &mut E) {
        scheduler.sched_self_event(SimTimeDelta::from_nanos(0), self.base.id, Message::Wake);
        scheduler.sim_error();
    }

    fn process_event(
        &mut self,
        _sender: ComponentId,
        _event: Message,
        _scheduler: &mut Scheduler<Message>,
        _env: &mut E,
    ) {
        panic!("an event was dispatched after the run had failed");
    }

    fn receive_msg(
        &mut self,
        _channel: ChannelId,
        _message: Message,
        _scheduler: &mut Scheduler<Message>,
        _env: &mut E,
    ) {
        panic!("an event was dispatched after the run had failed");
    }

    fn terminate(&mut self, _env: &mut E) {}

    fn add_channel(&mut self, channel: ChannelId) {
        self.base.add_channel(channel);
    }
}

struct SaboteurBuilder;

impl<E> ComponentBuilder<Message, E, Saboteur> for SaboteurBuilder {
    fn build_component(&mut self, id: ComponentId, _env: &mut E) -> Saboteur {
        Saboteur { base: ComponentBase::new(id) }
    }
}

#[test]
fn a_failed_run_ends_gracefully_and_still_terminates() {
    let mut sim: Simulation<Message, (), Saboteur, DelayChannel> = Simulation::new(());
    let mut sb = SaboteurBuilder;
    sim.add_process(&mut sb);
    sim.call_init();
    // The queued wakeup is silently dropped: run succeeds, the clock never
    // advances, and termination still executes.
    assert_eq!(sim.run(), Ok(()));
    assert!(sim.scheduler().get_curr_time().is_zero());
    let calls = std::cell::Cell::new(0u32);
    let outcome = sim.call_terminate(|_comps: &Vec<Saboteur>| {
        calls.set(calls.get() + 1);
        true
    });
    assert_eq!(outcome, Ok(()));
    assert_eq!(calls.get(), 1);
}

#[test]
fn a_send_on_an_unknown_channel_aborts_the_run() {
    let mut sim: Simulation<Message, (), Rogue, DelayChannel> = Simulation::new(());
    let mut rb = RogueBuilder { bogus_channel: 999 };
    sim.add_process(&mut rb);
    sim.call_init();
    assert_eq!(sim.run(), Err(SimError::UnknownChannel(999)));
}

#[test]
fn a_send_from_a_foreign_component_aborts_the_run() {
    let mut sim: Simulation<Message, (), Rogue, DelayChannel> = Simulation::new(());
    let a = {
        let mut rb = RogueBuilder { bogus_channel: 0 };
        sim.add_process(&mut rb)
    };
    let b = {
        let mut rb = RogueBuilder { bogus_channel: 0 };
        sim.add_process(&mut rb)
    };
    let mut cb = FixedDelayChannelBuilder { delay: SimTimeDelta::from_nanos(0) };
    let ch = sim.add_channel(a, b, &mut cb);
    // A third participant sends on a channel it is no endpoint of.
    let outsider = {
        let mut rb = RogueBuilder { bogus_channel: ch };
        sim.add_process(&mut rb)
    };
    sim.call_init();
    // Only the outsider queued a send, on a channel it is no endpoint of.
    let outcome = sim.run();
    assert_eq!(outcome, Err(SimError::ForeignSender(ch, outsider)));
}
