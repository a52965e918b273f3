use d2simrs::channel::{Channel, DelayChannel};
use d2simrs::scheduler::{EventType, Scheduler, SimTimeDelta};
use d2simrs::sim::{SimError, Simulation};
use d2simrs::spanning_tree::{
    FixedDelayChannelBuilder, Message, Process, ProcessBuilder, State,
};

type Sim = Simulation<Message, (), Process, DelayChannel>;

fn delta(nanos: u64) -> SimTimeDelta {
    SimTimeDelta::from_nanos(nanos)
}

/// Three processes wired in a line R - B - C, with the two channel delays
/// given. Returns the simulation ready to run.
fn line_topology(d_rb: u64, d_bc: u64) -> Sim {
    let mut sim: Sim = Simulation::new(());
    let mut pb = ProcessBuilder::new(100);
    let r = sim.add_process(&mut pb);
    let b = sim.add_process(&mut pb);
    let c = sim.add_process(&mut pb);
    let mut cb_rb = FixedDelayChannelBuilder { delay: delta(d_rb) };
    sim.add_channel(r, b, &mut cb_rb);
    let mut cb_bc = FixedDelayChannelBuilder { delay: delta(d_bc) };
    sim.add_channel(b, c, &mut cb_bc);
    sim.call_init();
    sim
}

fn no_component_unmarked(comps: &Vec<Process>) -> bool {
    comps.iter().all(|p| !matches!(p.state, State::Unmarked))
}

#[test]
fn handles_come_from_one_monotonic_counter() {
    let mut sim: Sim = Simulation::new(());
    let mut pb = ProcessBuilder::new(1);
    let a = sim.add_process(&mut pb);
    let b = sim.add_process(&mut pb);
    assert_eq!(a, 1);
    assert_eq!(b, 2);
    let mut cb = FixedDelayChannelBuilder { delay: delta(0) };
    let ch = sim.add_channel(a, b, &mut cb);
    assert_eq!(ch, 3);
    let c = sim.add_process(&mut pb);
    assert_eq!(c, 4);
}

#[test]
fn add_channel_registers_on_both_endpoints_once() {
    let mut sim: Sim = Simulation::new(());
    let mut pb = ProcessBuilder::new(1);
    let a = sim.add_process(&mut pb);
    let b = sim.add_process(&mut pb);
    let c = sim.add_process(&mut pb);
    let mut cb = FixedDelayChannelBuilder { delay: delta(0) };
    let ch_ab = sim.add_channel(a, b, &mut cb);
    let ch_bc = sim.add_channel(b, c, &mut cb);
    let comps = sim.components();
    assert_eq!(comps[0].base.channels, vec![ch_ab]);
    assert_eq!(comps[1].base.channels, vec![ch_ab, ch_bc]);
    assert_eq!(comps[2].base.channels, vec![ch_bc]);
}

#[test]
fn fixed_delay_channel_delivers_to_the_other_endpoint_at_t_plus_d() {
    let mut s: Scheduler<u64> = Scheduler::new();
    let mut ch = DelayChannel { id: 7, left: 1, right: 2, delay: delta(5_000_000) };
    Channel::<u64>::message_from(&mut ch, 1, 99, &mut s);
    match s.next_event() {
        EventType::MsgRcvEvent(e) => {
            assert_eq!(e.channel, 7);
            assert_eq!(e.receiver, 2, "delivered to the sending endpoint");
            assert_eq!(e.message, 99);
        },
        _ => panic!("expected a receive event"),
    }
    assert_eq!(s.get_curr_time().as_millis(), 5);
    let mut back = DelayChannel { id: 8, left: 1, right: 2, delay: delta(0) };
    Channel::<u64>::message_from(&mut back, 2, 11, &mut s);
    match s.next_event() {
        EventType::MsgRcvEvent(e) => {
            assert_eq!(e.receiver, 1);
        },
        _ => panic!("expected a receive event"),
    }
    assert_eq!(s.get_curr_time().as_millis(), 5);
}

#[test]
fn spanning_tree_line_topology_marks_every_process() {
    let mut sim = line_topology(3_000_000, 7_000_000);
    assert!(sim.run().is_ok());
    {
        let comps = sim.components();
        assert_eq!(comps[0].state, State::Root);
        assert_eq!(comps[1].state, State::Marked { parent: 100, root: 100 });
        assert_eq!(comps[2].state, State::Marked { parent: 101, root: 100 });
        assert_eq!(sim.scheduler().get_curr_time().as_millis(), 10);
    }
    let outcome = sim.call_terminate(no_component_unmarked);
    assert_eq!(outcome, Ok(()));
}

#[test]
fn terminate_reaches_every_component_exactly_once_and_validates_once() {
    let mut sim = line_topology(0, 0);
    assert!(sim.run().is_ok());
    let calls = std::cell::Cell::new(0u32);
    let seen = std::cell::Cell::new(0usize);
    let outcome = sim.call_terminate(|comps: &Vec<Process>| {
        calls.set(calls.get() + 1);
        seen.set(comps.len());
        true
    });
    assert_eq!(outcome, Ok(()));
    assert_eq!(calls.get(), 1, "validation ran more than once");
    assert_eq!(seen.get(), 3, "validation saw an incomplete component set");
    for p in sim.components().iter() {
        assert_eq!(p.terminate_count, 1);
    }
}

#[test]
fn unreached_process_fails_validation() {
    let mut sim: Sim = Simulation::new(());
    let mut pb = ProcessBuilder::new(100);
    let r = sim.add_process(&mut pb);
    let b = sim.add_process(&mut pb);
    let _c = sim.add_process(&mut pb);
    let mut cb = FixedDelayChannelBuilder { delay: delta(0) };
    sim.add_channel(r, b, &mut cb);
    sim.call_init();
    assert!(sim.run().is_ok());
    assert_eq!(sim.components()[2].state, State::Unmarked);
    let outcome = sim.call_terminate(no_component_unmarked);
    assert_eq!(outcome, Err(SimError::ValidationFailed));
}

#[test]
fn converged_states_do_not_depend_on_delays() {
    let mut fast = line_topology(0, 0);
    let mut slow = line_topology(9_000_000, 4_000_000);
    assert!(fast.run().is_ok());
    assert!(slow.run().is_ok());
    let fast_states: Vec<(u64, State)> =
        fast.components().iter().map(|p| (p.uid, p.state)).collect();
    let slow_states: Vec<(u64, State)> =
        slow.components().iter().map(|p| (p.uid, p.state)).collect();
    assert_eq!(fast_states, slow_states);
}

#[test]
fn step_on_an_empty_queue_reports_exhaustion() {
    let mut sim: Sim = Simulation::new(());
    let mut pb = ProcessBuilder::new(1);
    sim.add_process(&mut pb);
    assert_eq!(sim.step(), Ok(false));
    assert_eq!(sim.run(), Ok(()));
}

#[test]
fn run_counts_dispatched_events() {
    // Root wakeup, one send, one delivery at B, one forwarded send, one
    // delivery at C: five dispatches, then exhaustion.
    let mut sim = line_topology(0, 0);
    let mut steps = 0u32;
    loop {
        match sim.step() {
            Ok(true) => steps += 1,
            Ok(false) => break,
            Err(e) => panic!("unexpected error {:?}", e),
        }
    }
    assert_eq!(steps, 5);
}
