use cloudapi_installr::error::ErrorKind;
use cloudapi_installr::service::{
    decide_startup, exit_code, Directive, LoopEvent, LoopPhase, Startup, Supervisor,
};

#[test]
fn startup_needs_the_desired_state_file_and_the_shell() {
    assert_eq!(decide_startup(true, true), Startup::Run);
    assert_eq!(decide_startup(true, false), Startup::Abort(ErrorKind::Dependency));
    assert_eq!(decide_startup(false, true), Startup::AwaitSetup);
    assert_eq!(decide_startup(false, false), Startup::AwaitSetup);
}

#[test]
fn exit_code_is_zero_unless_startup_was_aborted() {
    assert_eq!(exit_code(Startup::Run), 0);
    assert_eq!(exit_code(Startup::AwaitSetup), 0);
    assert_ne!(exit_code(Startup::Abort(ErrorKind::Dependency)), 0);
}

#[test]
fn loop_waits_then_runs_then_waits() {
    let (mut supervisor, first) = Supervisor::start(15, false);
    assert_eq!(first, Directive::Wait(15));
    assert_eq!(supervisor.step(LoopEvent::IntervalElapsed), Directive::RunPass);
    assert_eq!(supervisor.phase, LoopPhase::Reconciling);
    assert_eq!(supervisor.step(LoopEvent::PassCompleted), Directive::Wait(15));
    assert_eq!(supervisor.phase, LoopPhase::Waiting);
    assert_eq!(supervisor.step(LoopEvent::IntervalElapsed), Directive::RunPass);
}

#[test]
fn default_interval_is_fifteen_seconds() {
    let (supervisor, first) = Supervisor::start_default(false);
    assert_eq!(first, Directive::Wait(15));
    assert_eq!(supervisor.interval_secs, 15);
    assert!(!supervisor.is_cancelled());
    assert!(!supervisor.is_stopped());
}

#[test]
fn cancellation_during_a_pass_lets_the_pass_finish() {
    let (mut supervisor, _) = Supervisor::start(15, false);
    supervisor.step(LoopEvent::IntervalElapsed);
    supervisor.cancel();
    assert!(supervisor.is_cancelled());
    assert_eq!(supervisor.phase, LoopPhase::Reconciling);
    assert_eq!(supervisor.step(LoopEvent::IntervalElapsed), Directive::Continue);
    assert_eq!(supervisor.phase, LoopPhase::Reconciling);
    assert_eq!(supervisor.step(LoopEvent::PassCompleted), Directive::Exit);
    assert!(supervisor.is_stopped());
}

#[test]
fn no_pass_begins_once_the_loop_has_stopped() {
    let (mut supervisor, _) = Supervisor::start(15, false);
    supervisor.step(LoopEvent::IntervalElapsed);
    supervisor.cancel();
    supervisor.step(LoopEvent::PassCompleted);
    for event in [LoopEvent::IntervalElapsed, LoopEvent::PassCompleted, LoopEvent::IntervalElapsed] {
        assert_eq!(supervisor.step(event), Directive::Exit);
        assert!(supervisor.is_stopped());
    }
}

#[test]
fn cancellation_during_the_interval_is_seen_after_the_next_pass() {
    let (mut supervisor, _) = Supervisor::start(15, false);
    supervisor.cancel();
    assert_eq!(supervisor.step(LoopEvent::IntervalElapsed), Directive::RunPass);
    assert_eq!(supervisor.step(LoopEvent::PassCompleted), Directive::Exit);
    assert_eq!(supervisor.step(LoopEvent::IntervalElapsed), Directive::Exit);
}

#[test]
fn passes_do_not_overlap() {
    let (mut supervisor, _) = Supervisor::start(1, false);
    assert_eq!(supervisor.step(LoopEvent::PassCompleted), Directive::Continue);
    assert_eq!(supervisor.phase, LoopPhase::Waiting);
    assert_eq!(supervisor.step(LoopEvent::IntervalElapsed), Directive::RunPass);
    assert_eq!(supervisor.step(LoopEvent::IntervalElapsed), Directive::Continue);
    assert_eq!(supervisor.phase, LoopPhase::Reconciling);
}

#[test]
fn loop_entered_with_the_flag_set_leaves_without_a_pass() {
    let (mut supervisor, first) = Supervisor::start(15, true);
    assert_eq!(first, Directive::Exit);
    assert!(supervisor.is_stopped());
    assert!(supervisor.is_cancelled());
    for event in [LoopEvent::IntervalElapsed, LoopEvent::PassCompleted, LoopEvent::IntervalElapsed] {
        assert_eq!(supervisor.step(event), Directive::Exit);
    }
    let (supervisor, first) = Supervisor::start_default(true);
    assert_eq!(first, Directive::Exit);
    assert_eq!(supervisor.phase, LoopPhase::Stopped);
}
