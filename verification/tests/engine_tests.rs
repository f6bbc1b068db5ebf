use bastion::ActorError;
use bastion::ActorId;
use bastion::ask::ReplySlot;
use bastion::dispatcher::{DispatchDecision, Dispatcher, DispatcherKind, GroupRegistry};
use bastion::mailbox::{ControlMessage, Envelope, Mailbox};
use bastion::path::{ActorNodeType, ActorPath, ActorScope};
use bastion::children::ChildrenSpec;
use bastion::routing::{route_target, BroadcastTarget, Delivery, RouteTable};
use bastion::supervision::{RestartWindow, SupervisionStrategy, SupervisorState, restart_targets};

fn id(v: u128) -> ActorId {
    ActorId { value: v }
}

fn deliver(sender: u128, body: &str) -> ControlMessage {
    ControlMessage::Deliver(Envelope {
        sender: Some(id(sender)),
        body: body.to_string(),
        reply: None,
    })
}

fn body_of(m: ControlMessage) -> String {
    match m {
        ControlMessage::Deliver(env) => env.body,
        _ => panic!("expected a user message"),
    }
}

#[test]
fn mailbox_is_fifo_per_sender() {
    let mut mb = Mailbox::new(None);
    mb.push(deliver(1, "a1")).unwrap();
    mb.push(deliver(2, "b1")).unwrap();
    mb.push(deliver(1, "a2")).unwrap();
    mb.push(deliver(1, "a3")).unwrap();

    let mut from_one: Vec<String> = Vec::new();
    loop {
        match mb.recv() {
            Ok(Some(ControlMessage::Deliver(env))) => {
                if env.sender == Some(id(1)) {
                    from_one.push(env.body);
                }
            }
            Ok(Some(_)) => {}
            Ok(None) => break,
            Err(_) => break,
        }
    }
    assert_eq!(from_one, vec!["a1".to_string(), "a2".to_string(), "a3".to_string()]);
}

#[test]
fn bounded_mailbox_refuses_when_full() {
    let mut mb = Mailbox::new(Some(2));
    mb.push(deliver(1, "x")).unwrap();
    mb.push(deliver(1, "y")).unwrap();
    assert_eq!(mb.push(deliver(1, "z")), Err(ActorError::MailboxFull));
    // the first two are still delivered in order
    assert_eq!(body_of(mb.recv().unwrap().unwrap()), "x");
    assert_eq!(body_of(mb.recv().unwrap().unwrap()), "y");
}

#[test]
fn empty_open_mailbox_suspends() {
    let mut mb = Mailbox::new(None);
    assert!(matches!(mb.recv(), Ok(None)));
}

#[test]
fn orderly_stop_delivers_one_final_stop() {
    let mut mb = Mailbox::new(None);
    mb.push(deliver(1, "before")).unwrap();
    mb.stop();
    // stop is idempotent: a second close adds nothing
    mb.stop();
    // no send is admitted after the final stop
    assert_eq!(mb.push(deliver(1, "after")), Err(ActorError::Stopped));

    assert_eq!(body_of(mb.recv().unwrap().unwrap()), "before");
    assert!(matches!(mb.recv(), Ok(Some(ControlMessage::Stop))));
    // after the final stop, nothing further is ever observed
    assert!(matches!(mb.recv(), Err(ActorError::Stopped)));
}

#[test]
fn recv_after_stop_returns_stopped() {
    let mut mb = Mailbox::new(None);
    mb.stop();
    assert!(matches!(mb.recv(), Ok(Some(ControlMessage::Stop))));
    assert!(matches!(mb.recv(), Err(ActorError::Stopped)));
    assert!(matches!(mb.recv(), Err(ActorError::Stopped)));
}

#[test]
fn ask_reply_echo() {
    // one child that, on "hello, world!", replies with the same payload
    let mut mb = Mailbox::new(None);
    let mut slot = ReplySlot::new();
    mb.push(ControlMessage::Deliver(Envelope {
        sender: Some(id(7)),
        body: "hello, world!".to_string(),
        reply: Some(bastion::ask::ReplyToken { slot: 1 }),
    }))
    .unwrap();

    // the child receives and echoes
    match mb.recv().unwrap().unwrap() {
        ControlMessage::Deliver(env) => {
            assert!(env.reply.is_some());
            slot.send(env.body).unwrap();
        }
        _ => panic!("expected the ask"),
    }

    // the asker observes the echo, and the mailbox is drained
    assert_eq!(slot.take(), Ok(Some("hello, world!".to_string())));
    assert!(matches!(mb.recv(), Ok(None)));
}

#[test]
fn reply_handle_fires_at_most_once() {
    let mut slot = ReplySlot::new();
    assert!(slot.send("one".to_string()).is_ok());
    assert_eq!(slot.send("two".to_string()), Err(ActorError::AskCanceled));
    assert_eq!(slot.take(), Ok(Some("one".to_string())));
}

#[test]
fn dropped_reply_handle_cancels_the_ask() {
    let mut slot = ReplySlot::new();
    slot.cancel();
    assert_eq!(slot.take(), Err(ActorError::AskCanceled));
    // a late answer is refused and never observed
    assert_eq!(slot.send("late".to_string()), Err(ActorError::AskCanceled));
    assert_eq!(slot.take(), Err(ActorError::AskCanceled));
}

#[test]
fn dropped_asker_never_observes_a_reply() {
    let mut slot = ReplySlot::new();
    slot.abandon();
    assert_eq!(slot.send("late".to_string()), Err(ActorError::AskCanceled));
    assert_eq!(slot.take(), Err(ActorError::AskCanceled));
}

#[test]
fn round_robin_fan_out_is_one_to_one() {
    // group "Rounder" with redundancy five: five payloads, each member
    // receives exactly one distinct payload
    let mut d = Dispatcher::new(DispatcherKind::RoundRobin("Rounder".to_string()));
    for m in 1..=5u128 {
        assert!(d.add_member(id(m)));
    }
    let payloads = ["data_1", "data_2", "data_3", "data_4", "data_5"];
    let mut received: Vec<(ActorId, String)> = Vec::new();
    for p in payloads.iter() {
        match d.dispatch().unwrap() {
            DispatchDecision::One(member) => received.push((member, p.to_string())),
            DispatchDecision::All => panic!("round robin selects one member"),
        }
    }
    // each member exactly once
    let mut members: Vec<ActorId> = received.iter().map(|r| r.0).collect();
    members.sort_by_key(|m| m.value);
    members.dedup();
    assert_eq!(members.len(), 5);
    // and the multiset of received payloads is exactly the five sent
    let mut got: Vec<String> = received.into_iter().map(|r| r.1).collect();
    got.sort();
    assert_eq!(got, vec!["data_1", "data_2", "data_3", "data_4", "data_5"]);
}

#[test]
fn round_robin_is_fair_over_two_epoch_windows() {
    let mut d = Dispatcher::new(DispatcherKind::RoundRobin("g".to_string()));
    for m in 0..3u128 {
        d.add_member(id(m));
    }
    let mut counts = [0usize; 3];
    for _ in 0..6 {
        match d.dispatch().unwrap() {
            DispatchDecision::One(member) => counts[member.value as usize] += 1,
            DispatchDecision::All => unreachable!(),
        }
    }
    assert_eq!(counts, [2, 2, 2]);
}

#[test]
fn dispatch_with_no_members_is_no_such_path() {
    let mut d = Dispatcher::new(DispatcherKind::RoundRobin("empty".to_string()));
    assert_eq!(d.dispatch(), Err(ActorError::NoSuchPath));
}

#[test]
fn default_dispatcher_broadcasts_to_all() {
    let mut d = Dispatcher::new(DispatcherKind::Default);
    d.add_member(id(1));
    d.add_member(id(2));
    assert_eq!(d.dispatch(), Ok(DispatchDecision::All));
}

#[test]
fn removed_member_is_never_selected() {
    let mut d = Dispatcher::new(DispatcherKind::RoundRobin("g".to_string()));
    for m in 0..4u128 {
        d.add_member(id(m));
    }
    assert!(d.remove_member(id(2)));
    assert!(!d.remove_member(id(2)));
    for _ in 0..9 {
        match d.dispatch().unwrap() {
            DispatchDecision::One(member) => assert_ne!(member, id(2)),
            DispatchDecision::All => unreachable!(),
        }
    }
}

#[test]
fn unregistered_group_name_routes_to_dead_letter() {
    let mut reg = GroupRegistry::new();
    assert!(reg.register("Rounder".to_string(), id(9)));
    assert!(!reg.register("Rounder".to_string(), id(10)));
    assert_eq!(reg.lookup("Rounder"), Ok(id(9)));
    assert_eq!(reg.lookup("nobody"), Err(ActorError::NoSuchPath));
}

#[test]
fn dead_letter_scope_is_a_sink() {
    let mut table = RouteTable::new();
    let p = ActorPath::new("node", ActorNodeType::Local, ActorScope::User, "worker/1");
    assert!(table.register(p, id(3)));

    let q = ActorPath::new("node", ActorNodeType::Local, ActorScope::User, "worker/1");
    assert_eq!(table.resolve(&q), Ok(id(3)));

    let sink = ActorPath::new("node", ActorNodeType::Local, ActorScope::DeadLetter, "worker/1");
    assert_eq!(table.resolve(&sink), Err(ActorError::NoSuchPath));
    // registering under the dead-letter scope is refused too
    let sink2 = ActorPath::new("node", ActorNodeType::Local, ActorScope::DeadLetter, "x");
    assert!(!table.register(sink2, id(4)));
}

#[test]
fn one_path_reaches_at_most_one_actor() {
    let mut table = RouteTable::new();
    let p = ActorPath::new("node", ActorNodeType::Local, ActorScope::User, "solo");
    let p_again = ActorPath::new("node", ActorNodeType::Local, ActorScope::User, "solo");
    assert!(table.register(p, id(1)));
    // a second live actor under the same path is refused
    assert!(!table.register(p_again, id(2)));
    let q = ActorPath::new("node", ActorNodeType::Local, ActorScope::User, "solo");
    assert_eq!(table.resolve(&q), Ok(id(1)));
    // once detached, the path reaches nothing
    assert!(table.remove(&q));
    assert_eq!(table.resolve(&q), Err(ActorError::NoSuchPath));
}

#[test]
fn one_for_one_restarts_only_the_faulted_child() {
    assert_eq!(restart_targets(SupervisionStrategy::OneForOne, 3, 1), vec![1]);
}

#[test]
fn one_for_all_restarts_every_child() {
    assert_eq!(restart_targets(SupervisionStrategy::OneForAll, 4, 2), vec![0, 1, 2, 3]);
}

#[test]
fn rest_for_one_restarts_the_tail() {
    assert_eq!(restart_targets(SupervisionStrategy::RestForOne, 5, 2), vec![2, 3, 4]);
}

#[test]
fn restart_budget_boundary() {
    // max_restarts = 5 within one second: five quick restarts pass,
    // the sixth within the window escalates
    let mut w = RestartWindow::new(5, 1000);
    assert!(w.note_restart(10).is_ok());
    assert!(w.note_restart(110).is_ok());
    assert!(w.note_restart(210).is_ok());
    assert!(w.note_restart(310).is_ok());
    assert!(w.note_restart(410).is_ok());
    assert_eq!(w.note_restart(510), Err(ActorError::RestartBudgetExceeded));
}

#[test]
fn restart_budget_window_slides() {
    let mut w = RestartWindow::new(2, 100);
    assert!(w.note_restart(0).is_ok());
    assert!(w.note_restart(50).is_ok());
    assert_eq!(w.note_restart(60), Err(ActorError::RestartBudgetExceeded));
    // once the first two fall out of the window, a restart is admitted again
    assert!(w.note_restart(200).is_ok());
}

#[test]
fn tell_and_ask_enqueue_envelopes() {
    let mut mb = Mailbox::new(None);
    mb.tell(Some(id(1)), "plain".to_string()).unwrap();
    mb.ask(Some(id(1)), "question".to_string(), bastion::ask::ReplyToken { slot: 5 }).unwrap();
    match mb.recv().unwrap().unwrap() {
        ControlMessage::Deliver(env) => {
            assert_eq!(env.body, "plain");
            assert!(env.reply.is_none());
        }
        _ => panic!("expected the tell"),
    }
    match mb.recv().unwrap().unwrap() {
        ControlMessage::Deliver(env) => {
            assert_eq!(env.body, "question");
            assert_eq!(env.reply, Some(bastion::ask::ReplyToken { slot: 5 }));
        }
        _ => panic!("expected the ask"),
    }
}

#[test]
fn children_builder_accounts_for_redundancy() {
    let mut group = ChildrenSpec::new()
        .with_redundancy(3)
        .with_dispatcher(DispatcherKind::RoundRobin("Rounder".to_string()))
        .build();
    assert!(group.attach(id(1)));
    assert!(group.attach(id(2)));
    assert_eq!(group.shortfall(), 1);
    assert!(group.attach(id(3)));
    assert_eq!(group.shortfall(), 0);
    // a faulted member leaves a hole the supervisor must fill
    assert!(group.detach(id(2)));
    assert_eq!(group.shortfall(), 1);
}

#[test]
fn broadcast_targets_route_or_dead_letter() {
    let mut groups = GroupRegistry::new();
    let mut table = RouteTable::new();
    groups.register("Rounder".to_string(), id(8));
    let p = ActorPath::new("node", ActorNodeType::Local, ActorScope::User, "w/1");
    table.register(p, id(9));

    assert_eq!(route_target(&BroadcastTarget::All, &groups, &table), Ok(Delivery::Everyone));
    assert_eq!(
        route_target(&BroadcastTarget::Group("Rounder".to_string()), &groups, &table),
        Ok(Delivery::ToGroup(id(8)))
    );
    assert_eq!(
        route_target(&BroadcastTarget::Group("nobody".to_string()), &groups, &table),
        Err(ActorError::NoSuchPath)
    );
    let q = ActorPath::new("node", ActorNodeType::Local, ActorScope::User, "w/1");
    assert_eq!(
        route_target(&BroadcastTarget::Children(q), &groups, &table),
        Ok(Delivery::ToActor(id(9)))
    );
    let sink = ActorPath::new("node", ActorNodeType::Local, ActorScope::DeadLetter, "w/1");
    assert_eq!(
        route_target(&BroadcastTarget::Children(sink), &groups, &table),
        Err(ActorError::NoSuchPath)
    );
}

#[test]
fn one_for_one_group_survives_repeated_faults_until_the_budget() {
    // redundancy three under one-for-one, max_restarts five within one
    // second: a fault in the middle child restarts it alone, again and
    // again, until the sixth fault within the window escalates
    let mut sup = SupervisorState::new(SupervisionStrategy::OneForOne, 3, 5, 1000);
    for turn in 1..=5u64 {
        assert_eq!(sup.on_child_fault(1, turn * 10), Ok(vec![1]));
    }
    assert_eq!(sup.on_child_fault(1, 60), Err(ActorError::RestartBudgetExceeded));
    // the siblings' budgets were never touched: a first fault in a
    // sibling is still restarted
    assert_eq!(sup.on_child_fault(0, 70), Ok(vec![0]));
}

#[test]
fn rest_for_one_supervisor_restarts_the_faulted_child_and_later_ones() {
    let mut sup = SupervisorState::new(SupervisionStrategy::RestForOne, 5, 3, 1000);
    assert_eq!(sup.on_child_fault(2, 10), Ok(vec![2, 3, 4]));
}

#[test]
fn one_for_all_supervisor_restarts_everyone() {
    let mut sup = SupervisorState::new(SupervisionStrategy::OneForAll, 4, 3, 1000);
    assert_eq!(sup.on_child_fault(3, 10), Ok(vec![0, 1, 2, 3]));
}
