use mtga_tauri::shutdown::{drain_steps, is_splash_window, DrainStep, ShutdownLatch, ShutdownPhase, TriggerResponse};

const TAKE_OVER: TriggerResponse = TriggerResponse { suppress_default: true, start_drain: true };
const LET_DEFAULT: TriggerResponse = TriggerResponse { suppress_default: false, start_drain: false };
const HOLD_BACK: TriggerResponse = TriggerResponse { suppress_default: true, start_drain: false };

#[test]
fn first_close_takes_over_later_ones_do_nothing() {
    let mut latch = ShutdownLatch::new();
    assert_eq!(latch.on_close_requested("main", true), TAKE_OVER);
    assert_eq!(latch.phase(), ShutdownPhase::Draining);
    assert_eq!(latch.on_close_requested("main", true), LET_DEFAULT);
    assert_eq!(latch.on_exit_requested(true), LET_DEFAULT);
    assert_eq!(latch.phase(), ShutdownPhase::Draining);
}

#[test]
fn exit_after_reveal_takes_over_once() {
    let mut latch = ShutdownLatch::new();
    assert_eq!(latch.on_exit_requested(true), TAKE_OVER);
    assert_eq!(latch.on_close_requested("main", true), LET_DEFAULT);
    assert_eq!(latch.on_exit_requested(true), LET_DEFAULT);
}

#[test]
fn exit_before_reveal_is_held_back() {
    let mut latch = ShutdownLatch::new();
    assert_eq!(latch.on_exit_requested(false), HOLD_BACK);
    assert_eq!(latch.phase(), ShutdownPhase::Running);
    assert_eq!(latch.on_exit_requested(false), HOLD_BACK);
    assert_eq!(latch.on_exit_requested(true), TAKE_OVER);
}

#[test]
fn splash_close_after_reveal_is_ignored() {
    let mut latch = ShutdownLatch::new();
    assert_eq!(latch.on_close_requested("splash", true), LET_DEFAULT);
    assert_eq!(latch.phase(), ShutdownPhase::Running);
}

#[test]
fn splash_close_during_boot_drains() {
    let mut latch = ShutdownLatch::new();
    assert_eq!(latch.on_close_requested("splash", false), TAKE_OVER);
}

#[test]
fn drain_finishes() {
    let mut latch = ShutdownLatch::new();
    latch.on_drained();
    assert_eq!(latch.phase(), ShutdownPhase::Running);
    latch.on_close_requested("main", false);
    latch.on_drained();
    assert_eq!(latch.phase(), ShutdownPhase::Terminated);
    assert_eq!(latch.on_exit_requested(true), LET_DEFAULT);
}

#[test]
fn drain_sequence() {
    assert_eq!(drain_steps(), vec![DrainStep::ReleaseBackend, DrainStep::Wait { ms: 500 }, DrainStep::Exit { code: 0 }]);
}

#[test]
fn splash_label() {
    assert!(is_splash_window("splash"));
    assert!(!is_splash_window("main"));
    assert!(!is_splash_window("splash2"));
}
