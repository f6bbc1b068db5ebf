use bastion::ActorId;
use bastion::system::{SystemAction, SystemEvent, SystemState};

fn id(v: u128) -> ActorId {
    ActorId { value: v }
}

#[test]
fn intake_launches_and_dead_id_is_rejected() {
    let mut sys = SystemState::new(5, 1000);
    assert!(matches!(sys.step(SystemEvent::Intake(id(1)), 1), SystemAction::Launch(_)));
    // the same identifier cannot be registered twice
    assert!(matches!(sys.step(SystemEvent::Intake(id(1)), 2), SystemAction::Reject(_)));
    // once dead, an identifier never returns as live
    assert!(matches!(
        sys.step(SystemEvent::SupervisorDead(id(1)), 3),
        SystemAction::Detach(_)
    ));
    assert!(matches!(sys.step(SystemEvent::Intake(id(1)), 4), SystemAction::Reject(_)));
}

#[test]
fn faulted_supervisor_is_relaunched_within_budget() {
    let mut sys = SystemState::new(2, 1000);
    sys.step(SystemEvent::Intake(id(1)), 0);
    assert!(matches!(
        sys.step(SystemEvent::SupervisorFaulted(id(1)), 10),
        SystemAction::Relaunch(_)
    ));
    assert!(matches!(
        sys.step(SystemEvent::SupervisorFaulted(id(1)), 20),
        SystemAction::Relaunch(_)
    ));
    // the third fault within the window exhausts the supervisor's budget;
    // the root's own budget still admits the failure, so it is discarded
    assert!(matches!(
        sys.step(SystemEvent::SupervisorFaulted(id(1)), 30),
        SystemAction::Discard(_)
    ));
    // the discarded supervisor is dead: a fault report for it is ignored
    assert!(matches!(
        sys.step(SystemEvent::SupervisorFaulted(id(1)), 40),
        SystemAction::Ignore
    ));
}

#[test]
fn poison_pill_begins_orderly_shutdown() {
    let mut sys = SystemState::new(5, 1000);
    sys.step(SystemEvent::Intake(id(1)), 0);
    assert!(matches!(sys.step(SystemEvent::PoisonPill, 1), SystemAction::BroadcastStop));
    // stop is idempotent
    assert!(matches!(sys.step(SystemEvent::PoisonPill, 2), SystemAction::Ignore));
    // no delivery and no intake after the shutdown began
    assert!(matches!(sys.step(SystemEvent::Intake(id(2)), 3), SystemAction::Reject(_)));
}

#[test]
fn closed_channels_exit_the_loop() {
    let mut sys = SystemState::new(5, 1000);
    assert!(matches!(sys.step(SystemEvent::InboundClosed, 1), SystemAction::ExitLoop));
    let mut sys2 = SystemState::new(5, 1000);
    assert!(matches!(sys2.step(SystemEvent::IntakeClosed, 1), SystemAction::ExitLoop));
}

#[test]
fn unknown_fault_reports_are_ignored() {
    let mut sys = SystemState::new(5, 1000);
    assert!(matches!(
        sys.step(SystemEvent::SupervisorFaulted(id(42)), 1),
        SystemAction::Ignore
    ));
}
