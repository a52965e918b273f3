use d2simrs::scheduler::{EventType, Scheduler, SimStatus, SimTimeDelta};

fn delta(nanos: u64) -> SimTimeDelta {
    SimTimeDelta::from_nanos(nanos)
}

#[test]
fn empty_queue_yields_end_simulation() {
    let mut s: Scheduler<u64> = Scheduler::new();
    assert!(matches!(s.next_event(), EventType::EndSimulation));
    assert!(s.get_curr_time().is_zero());
}

#[test]
fn pop_returns_events_in_nondecreasing_time_order() {
    let mut s: Scheduler<u64> = Scheduler::new();
    s.send_msg_delayed(delta(30), 1, 10, 300);
    s.send_msg_delayed(delta(10), 1, 10, 100);
    s.send_msg_delayed(delta(20), 1, 10, 200);
    let mut last: u64 = 0;
    let mut popped: Vec<u64> = Vec::new();
    loop {
        let now = s.get_curr_time().as_nanos();
        assert!(now >= last, "current time regressed");
        last = now;
        match s.next_event() {
            EventType::MsgSendEvent(e) => popped.push(e.message),
            EventType::EndSimulation => break,
            _ => panic!("unexpected event kind"),
        }
    }
    assert_eq!(popped, vec![100, 200, 300]);
    assert_eq!(s.get_curr_time().as_nanos(), 30);
}

#[test]
fn equal_times_pop_in_insertion_order() {
    let mut s: Scheduler<u64> = Scheduler::new();
    s.send_msg_delayed(delta(5), 1, 10, 111);
    s.send_msg_delayed(delta(5), 2, 11, 222);
    s.send_msg_delayed(delta(5), 3, 12, 333);
    let mut popped: Vec<u64> = Vec::new();
    for _ in 0..3 {
        match s.next_event() {
            EventType::MsgSendEvent(e) => popped.push(e.message),
            _ => panic!("unexpected event kind"),
        }
    }
    assert_eq!(popped, vec![111, 222, 333]);
}

#[test]
fn send_msg_fires_at_current_time() {
    let mut s: Scheduler<u64> = Scheduler::new();
    s.send_msg(4, 20, 77);
    match s.next_event() {
        EventType::MsgSendEvent(e) => {
            assert_eq!(e.sender, 4);
            assert_eq!(e.channel, 20);
            assert_eq!(e.message, 77);
        },
        _ => panic!("expected a send event"),
    }
    assert!(s.get_curr_time().is_zero());
}

#[test]
fn sched_receive_msg_addresses_the_receiver() {
    let mut s: Scheduler<u64> = Scheduler::new();
    s.sched_receive_msg(delta(9), 6, 21, 88);
    match s.next_event() {
        EventType::MsgRcvEvent(e) => {
            assert_eq!(e.receiver, 6);
            assert_eq!(e.channel, 21);
            assert_eq!(e.message, 88);
        },
        _ => panic!("expected a receive event"),
    }
    assert_eq!(s.get_curr_time().as_nanos(), 9);
}

#[test]
fn self_event_is_self_addressed() {
    let mut s: Scheduler<u64> = Scheduler::new();
    s.sched_self_event(delta(0), 5, 55);
    match s.next_event() {
        EventType::ProcessEvent(e) => {
            assert_eq!(e.sender, 5);
            assert_eq!(e.receiver, 5);
            assert_eq!(e.event, 55);
        },
        _ => panic!("expected a process event"),
    }
}

#[test]
fn failure_flag_is_sticky_and_hides_queued_events() {
    let mut s: Scheduler<u64> = Scheduler::new();
    assert_eq!(s.status(), SimStatus::Running);
    s.send_msg_delayed(delta(1), 1, 10, 1);
    s.send_msg_delayed(delta(2), 1, 10, 2);
    s.sim_error();
    assert_eq!(s.status(), SimStatus::Failure);
    assert!(matches!(s.next_event(), EventType::EndSimulation));
    assert!(matches!(s.next_event(), EventType::EndSimulation));
    assert!(s.get_curr_time().is_zero());
}
