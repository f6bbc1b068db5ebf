use bastion::ActorError;
use bastion::ActorId;
use bastion::actor::{exit_error, exit_report, ChildOutcome};
use bastion::broadcast::BroadcastNode;
use bastion::mailbox::ControlMessage;

fn id(v: u128) -> ActorId {
    ActorId { value: v }
}

#[test]
fn clean_return_reports_dead_and_failure_reports_faulted() {
    assert!(matches!(
        exit_report(id(1), ChildOutcome::Completed),
        ControlMessage::Dead { id: d } if d == id(1)
    ));
    assert!(matches!(
        exit_report(id(2), ChildOutcome::Failed),
        ControlMessage::Faulted { id: f } if f == id(2)
    ));
    assert!(matches!(
        exit_report(id(3), ChildOutcome::Panicked),
        ControlMessage::Faulted { id: f } if f == id(3)
    ));
}

#[test]
fn exit_errors_distinguish_panic_from_error_return() {
    assert_eq!(exit_error(ChildOutcome::Completed), None);
    assert_eq!(exit_error(ChildOutcome::Failed), Some(ActorError::ChildReturnedErr));
    assert_eq!(exit_error(ChildOutcome::Panicked), Some(ActorError::ChildPanicked));
}

#[test]
fn fan_out_reaches_every_attached_child_in_insertion_order() {
    let mut node = BroadcastNode::new(None);
    assert!(node.add_child(id(1)));
    assert!(node.add_child(id(2)));
    assert!(!node.add_child(id(2)));
    assert!(node.add_child(id(3)));
    assert_eq!(node.send_children(), vec![id(1), id(2), id(3)]);
}

#[test]
fn remove_child_is_idempotent() {
    let mut node = BroadcastNode::new(Some(id(9)));
    node.add_child(id(1));
    node.add_child(id(2));
    assert!(node.remove_child(id(1)));
    assert!(!node.remove_child(id(1)));
    assert_eq!(node.send_children(), vec![id(2)]);
    assert_eq!(node.send_parent(), Some(id(9)));
}

#[test]
fn inbound_queue_hands_messages_in_order() {
    let mut node = BroadcastNode::new(None);
    node.push_inbound(ControlMessage::Dead { id: id(4) }).unwrap();
    node.push_inbound(ControlMessage::Faulted { id: id(5) }).unwrap();
    assert!(matches!(node.next(), Ok(Some(ControlMessage::Dead { .. }))));
    assert!(matches!(node.next(), Ok(Some(ControlMessage::Faulted { .. }))));
    // an empty queue stands for a suspension
    assert!(matches!(node.next(), Ok(None)));
}
