use mtga_tauri::boot::{
    is_splash_url, reveal_steps, PageLoadPlan, ReadinessState, RevealOutcome, RevealStep,
    WARMUP_SETTLE_MS,
};
use mtga_tauri::latch::Latch;
use mtga_tauri::text::ends_with_text;

#[test]
fn splash_url_detection() {
    assert!(is_splash_url("/splashscreen.html"));
    assert!(is_splash_url("/assets/splashscreen.html"));
    assert!(!is_splash_url("/index.html"));
    assert!(!is_splash_url("splashscreen.html"));
    assert!(!is_splash_url("/splashscreen.html/"));
    assert!(!is_splash_url(""));
}

#[test]
fn suffix_check() {
    assert!(ends_with_text("abc", "bc"));
    assert!(ends_with_text("abc", ""));
    assert!(!ends_with_text("bc", "abc"));
}

#[test]
fn reveal_waits_for_page_and_backend() {
    let mut state = ReadinessState::new();
    assert_eq!(state.try_reveal(true), RevealOutcome::NotReady);
    assert!(state.mark_page_loaded());
    assert_eq!(state.try_reveal(true), RevealOutcome::NotReady);
    assert!(state.mark_backend_ready());
    assert_eq!(state.try_reveal(false), RevealOutcome::MainMissing);
    assert!(!state.main_shown());
    assert_eq!(state.try_reveal(true), RevealOutcome::Reveal);
    assert!(state.main_shown());
}

#[test]
fn reveal_happens_once() {
    let mut state = ReadinessState::new();
    state.mark_page_loaded();
    state.mark_backend_ready();
    let outcomes: Vec<RevealOutcome> = (0..5).map(|_| state.try_reveal(true)).collect();
    let wins = outcomes.iter().filter(|o| **o == RevealOutcome::Reveal).count();
    assert_eq!(wins, 1);
    assert_eq!(outcomes[0], RevealOutcome::Reveal);
    assert!(outcomes[1..].iter().all(|o| *o == RevealOutcome::AlreadyShown));
}

#[test]
fn reveal_step_order() {
    assert_eq!(
        reveal_steps(),
        vec![
            RevealStep::CopySplashPosition,
            RevealStep::CopySplashSize,
            RevealStep::ShowMain,
            RevealStep::FocusMain,
            RevealStep::SetReadyFlag,
            RevealStep::NotifyReady,
            RevealStep::CloseSplash,
        ]
    );
}

#[test]
fn page_load_of_splash_only_schedules_warmup() {
    let mut state = ReadinessState::new();
    let plan = state.on_page_loaded(true, true);
    assert_eq!(plan, PageLoadPlan { reveal: None, warmup_after_ms: WARMUP_SETTLE_MS });
    assert!(!state.page_loaded());
}

#[test]
fn page_load_of_main_reveals_when_backend_ready() {
    let mut state = ReadinessState::new();
    state.mark_backend_ready();
    let plan = state.on_page_loaded(false, true);
    assert_eq!(plan.reveal, Some(RevealOutcome::Reveal));
    assert_eq!(plan.warmup_after_ms, 1200);
    assert!(state.page_loaded());
    let again = state.on_page_loaded(false, true);
    assert_eq!(again.reveal, Some(RevealOutcome::AlreadyShown));
}

#[test]
fn warmup_starts_once_by_either_path() {
    let mut state = ReadinessState::new();
    assert!(state.on_overlay_ready());
    assert!(!state.start_backend_warmup());
    assert!(!state.on_overlay_ready());
    assert!(!state.page_loaded());
}

#[test]
fn warmup_finish_starts_log_stream_once_and_marks_ready() {
    let mut state = ReadinessState::new();
    assert!(state.on_warmup_finished());
    assert!(state.backend_ready());
    assert!(!state.on_warmup_finished());
    assert!(!state.claim_log_stream());
}

#[test]
fn backend_ready_flip_has_one_winner() {
    let mut state = ReadinessState::new();
    let first = state.mark_backend_ready();
    let second = state.mark_backend_ready();
    assert!(first ^ second);
    assert!(first);
    assert!(state.backend_ready());
}

#[test]
fn latch_flips_once() {
    let mut latch = Latch::new();
    assert!(!latch.is_set());
    assert!(latch.flip());
    assert!(latch.is_set());
    assert!(!latch.flip());
    assert!(latch.is_set());
}

