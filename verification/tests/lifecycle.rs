use trafficmon::control::{ControlAction, ControlEvent, LifecycleController, LifecyclePhase};
use trafficmon::publish::PublishError;

#[test]
fn startup_reset_then_first_cycle() {
    let (mut controller, first) = LifecycleController::new();
    assert_eq!(first, ControlAction::RunReset);
    assert_eq!(controller.phase, LifecyclePhase::Starting);
    let a = controller.on_event(ControlEvent::ResetCompleted { ok: true });
    assert_eq!(a, ControlAction::RunCycle);
    assert_eq!(controller.phase, LifecyclePhase::Running);
}

#[test]
fn reset_failure_is_tolerated() {
    let (mut controller, _) = LifecycleController::new();
    let a = controller.on_event(ControlEvent::ResetCompleted { ok: false });
    assert_eq!(a, ControlAction::RunCycle);
    assert_eq!(controller.phase, LifecyclePhase::Running);
}

#[test]
fn steady_state_alternates_cycle_and_delay() {
    let (mut controller, _) = LifecycleController::new();
    controller.on_event(ControlEvent::ResetCompleted { ok: true });
    let a = controller.on_event(ControlEvent::CycleCompleted { published: true });
    assert_eq!(a, ControlAction::Delay);
    let a = controller.on_event(ControlEvent::DelayElapsed);
    assert_eq!(a, ControlAction::RunCycle);
    let a = controller.on_event(ControlEvent::CycleCompleted { published: true });
    assert_eq!(a, ControlAction::Delay);
}

#[test]
fn shutdown_during_delay_exits_without_new_cycle() {
    let (mut controller, _) = LifecycleController::new();
    controller.on_event(ControlEvent::ResetCompleted { ok: true });
    controller.on_event(ControlEvent::CycleCompleted { published: true });
    let a = controller.on_event(ControlEvent::ShutdownRequested);
    assert_eq!(a, ControlAction::Exit);
    assert_eq!(controller.phase, LifecyclePhase::Stopped);
}

#[test]
fn shutdown_in_any_phase_exits() {
    let (mut starting, _) = LifecycleController::new();
    assert_eq!(
        starting.on_event(ControlEvent::ShutdownRequested),
        ControlAction::Exit
    );
    assert_eq!(starting.phase, LifecyclePhase::Stopped);
    let a = starting.on_event(ControlEvent::DelayElapsed);
    assert_eq!(a, ControlAction::Exit);
    assert_eq!(starting.phase, LifecyclePhase::Stopped);
}

#[test]
fn publish_failure_logs_and_continues() {
    let (mut controller, _) = LifecycleController::new();
    controller.on_event(ControlEvent::ResetCompleted { ok: true });
    let a = controller.on_event(ControlEvent::CycleCompleted { published: false });
    assert_eq!(a, ControlAction::Delay);
    assert_eq!(controller.phase, LifecyclePhase::Running);
    let a = controller.on_event(ControlEvent::DelayElapsed);
    assert_eq!(a, ControlAction::RunCycle);
}

#[test]
fn publish_error_kinds_are_distinct() {
    let open = PublishError::OpenError("no parent directory".to_string());
    let write = PublishError::WriteError("short write".to_string());
    let sync = PublishError::SyncError("device gone".to_string());
    assert_ne!(open, write);
    assert_ne!(write, sync);
    assert_ne!(open, sync);
}
