use vstd::prelude::*;

use crate::latch::{flip_result, Latch};
use crate::text::ends_with_text;

verus! {

/// The pause between a finished page load and the start of backend warmup,
/// which lets the page's own framework mount first.
pub const WARMUP_SETTLE_MS: u64 = 1200;

/// The readiness latches of the boot sequence. Each moves from unset to set
/// once; `warmup_started` guards the warmup trigger on its own, apart from
/// `page_loaded`.
#[derive(Debug)]
pub struct ReadinessState {
    page_loaded: Latch,
    backend_ready: Latch,
    main_shown: Latch,
    log_stream_started: Latch,
    warmup_started: Latch,
}

/// The values of the readiness latches.
pub struct Readiness {
    pub page_loaded: bool,
    pub backend_ready: bool,
    pub main_shown: bool,
    pub log_stream_started: bool,
    pub warmup_started: bool,
}

impl View for ReadinessState {
    type V = Readiness;

    closed spec fn view(&self) -> Readiness {
        Readiness {
            page_loaded: self.page_loaded@,
            backend_ready: self.backend_ready@,
            main_shown: self.main_shown@,
            log_stream_started: self.log_stream_started@,
            warmup_started: self.warmup_started@,
        }
    }
}

/// What one attempt to reveal the main window found.
#[derive(Debug, Clone, Copy, PartialEq, Eq)]
pub enum RevealOutcome {
    /// The page or the backend is not ready yet.
    NotReady,
    /// Both are ready but the main window does not exist yet.
    MainMissing,
    /// An earlier attempt revealed it.
    AlreadyShown,
    /// This attempt won: the caller performs the reveal steps.
    Reveal,
}

/// One visible effect of the reveal, in the order the winner performs them.
#[derive(Debug, Clone, Copy, PartialEq, Eq)]
pub enum RevealStep {
    CopySplashPosition,
    CopySplashSize,
    ShowMain,
    FocusMain,
    SetReadyFlag,
    NotifyReady,
    CloseSplash,
}

/// What the host does after a page finished loading.
#[derive(Debug, Clone, Copy, PartialEq, Eq)]
pub struct PageLoadPlan {
    /// The reveal attempt made for a page other than the splash page.
    pub reveal: Option<RevealOutcome>,
    /// After this pause, the host asks to start the backend warmup.
    pub warmup_after_ms: u64,
}

/// The readiness after one reveal attempt, and what the attempt found.
pub open spec fn reveal_result(v: Readiness, main_exists: bool) -> (Readiness, RevealOutcome) {
    if !(v.backend_ready && v.page_loaded) {
        (v, RevealOutcome::NotReady)
    } else if !main_exists {
        (v, RevealOutcome::MainMissing)
    } else if v.main_shown {
        (v, RevealOutcome::AlreadyShown)
    } else {
        (Readiness { main_shown: true, ..v }, RevealOutcome::Reveal)
    }
}

/// Whether `path` names the splash page.
pub open spec fn is_splash_path(path: Seq<char>) -> bool {
    let suffix = "/splashscreen.html"@;
    path.len() >= suffix.len() && path.subrange(path.len() - suffix.len(), path.len() as int) == suffix
}

/// Whether the page at URL path `path` is the splash page.
pub fn is_splash_url(path: &str) -> (r: bool)
    ensures
        r == is_splash_path(path@),
{
    ends_with_text(path, "/splashscreen.html")
}

/// The reveal's visible effects, in order: the main window takes the
/// splash window's place and size, shows, takes focus, learns that the backend
/// is ready, the readiness is announced, and the splash window closes.
pub fn reveal_steps() -> (r: Vec<RevealStep>)
    ensures
        r@ == seq![
            RevealStep::CopySplashPosition,
            RevealStep::CopySplashSize,
            RevealStep::ShowMain,
            RevealStep::FocusMain,
            RevealStep::SetReadyFlag,
            RevealStep::NotifyReady,
            RevealStep::CloseSplash,
        ],
{
    vec![
        RevealStep::CopySplashPosition,
        RevealStep::CopySplashSize,
        RevealStep::ShowMain,
        RevealStep::FocusMain,
        RevealStep::SetReadyFlag,
        RevealStep::NotifyReady,
        RevealStep::CloseSplash,
    ]
}

impl ReadinessState {
    /// All latches unset.
    pub fn new() -> (r: ReadinessState)
        ensures
            r@ == (Readiness {
                page_loaded: false,
                backend_ready: false,
                main_shown: false,
                log_stream_started: false,
                warmup_started: false,
            }),
    {
        ReadinessState {
            page_loaded: Latch::new(),
            backend_ready: Latch::new(),
            main_shown: Latch::new(),
            log_stream_started: Latch::new(),
            warmup_started: Latch::new(),
        }
    }

    pub fn page_loaded(&self) -> (r: bool)
        ensures
            r == self@.page_loaded,
    {
        self.page_loaded.is_set()
    }

    pub fn backend_ready(&self) -> (r: bool)
        ensures
            r == self@.backend_ready,
    {
        self.backend_ready.is_set()
    }

    pub fn main_shown(&self) -> (r: bool)
        ensures
            r == self@.main_shown,
    {
        self.main_shown.is_set()
    }

    /// Sets `page_loaded`; `true` for the call that set it.
    pub fn mark_page_loaded(&mut self) -> (won: bool)
        ensures
            won == !old(self)@.page_loaded,
            final(self)@ == (Readiness { page_loaded: true, ..old(self)@ }),
    {
        self.page_loaded.flip()
    }

    /// Sets `backend_ready`; `true` for the call that set it.
    pub fn mark_backend_ready(&mut self) -> (won: bool)
        ensures
            (won, final(self)@.backend_ready) == flip_result(old(self)@.backend_ready),
            final(self)@ == (Readiness { backend_ready: true, ..old(self)@ }),
    {
        self.backend_ready.flip()
    }

    /// Claims the start of the backend warmup; only the first claim, whichever
    /// path it came by, starts it.
    pub fn start_backend_warmup(&mut self) -> (start: bool)
        ensures
            start == !old(self)@.warmup_started,
            final(self)@ == (Readiness { warmup_started: true, ..old(self)@ }),
    {
        self.warmup_started.flip()
    }

    /// The splash page reported that it is ready: the same claim as
    /// `start_backend_warmup`.
    pub fn on_overlay_ready(&mut self) -> (start: bool)
        ensures
            start == !old(self)@.warmup_started,
            final(self)@ == (Readiness { warmup_started: true, ..old(self)@ }),
    {
        self.start_backend_warmup()
    }

    /// Claims the start of the log stream; `true` for the first claim only.
    pub fn claim_log_stream(&mut self) -> (start: bool)
        ensures
            start == !old(self)@.log_stream_started,
            final(self)@ == (Readiness { log_stream_started: true, ..old(self)@ }),
    {
        self.log_stream_started.flip()
    }

    /// The backend's one-time initialization returned: the log stream is
    /// claimed (the result says whether this call starts it), then the backend
    /// is marked ready. The host then attempts the reveal.
    pub fn on_warmup_finished(&mut self) -> (start_log_stream: bool)
        ensures
            start_log_stream == !old(self)@.log_stream_started,
            final(self)@ == (Readiness { log_stream_started: true, backend_ready: true, ..old(self)@ }),
    {
        let start = self.claim_log_stream();
        self.mark_backend_ready();
        start
    }

    /// One attempt to reveal the main window; `main_exists` says whether its
    /// handle could be found. Only the attempt that sets `main_shown` is told
    /// to reveal.
    pub fn try_reveal(&mut self, main_exists: bool) -> (r: RevealOutcome)
        ensures
            (final(self)@, r) == reveal_result(old(self)@, main_exists),
    {
        if !self.backend_ready.is_set() || !self.page_loaded.is_set() {
            return RevealOutcome::NotReady;
        }
        if !main_exists {
            return RevealOutcome::MainMissing;
        }
        if self.main_shown.flip() {
            RevealOutcome::Reveal
        } else {
            RevealOutcome::AlreadyShown
        }
    }

    /// A page finished loading. A page other than the splash page sets
    /// `page_loaded` and attempts the reveal; every page schedules the warmup
    /// claim after the settling pause.
    pub fn on_page_loaded(&mut self, splash_page: bool, main_exists: bool) -> (r: PageLoadPlan)
        ensures
            r.warmup_after_ms == WARMUP_SETTLE_MS,
            splash_page ==> r.reveal is None && final(self)@ == old(self)@,
            !splash_page ==> ({
                let (v, outcome) = reveal_result(Readiness { page_loaded: true, ..old(self)@ }, main_exists);
                r.reveal == Some(outcome) && final(self)@ == v
            }),
    {
        if splash_page {
            return PageLoadPlan { reveal: None, warmup_after_ms: WARMUP_SETTLE_MS };
        }
        self.mark_page_loaded();
        let outcome = self.try_reveal(main_exists);
        PageLoadPlan { reveal: Some(outcome), warmup_after_ms: WARMUP_SETTLE_MS }
    }
}

/// One operation on the readiness state, as the threads of the boot sequence
/// perform them; any interleaving of those threads is a sequence of these.
pub enum BootOp {
    PageLoaded,
    BackendReady,
    TryReveal { main_exists: bool },
}

/// The readiness after `op`, and whether `op` was a winning reveal.
pub open spec fn apply_boot_op(v: Readiness, op: BootOp) -> (Readiness, bool) {
    match op {
        BootOp::PageLoaded => (Readiness { page_loaded: true, ..v }, false),
        BootOp::BackendReady => (Readiness { backend_ready: true, ..v }, false),
        BootOp::TryReveal { main_exists } => {
            let (w, outcome) = reveal_result(v, main_exists);
            (w, outcome == RevealOutcome::Reveal)
        },
    }
}

/// The readiness after `ops`, and how many of them revealed the main window.
pub open spec fn run_boot(v: Readiness, ops: Seq<BootOp>) -> (Readiness, nat)
    decreases ops.len(),
{
    if ops.len() == 0 {
        (v, 0)
    } else {
        let (mid, count) = run_boot(v, ops.drop_last());
        let (end, revealed) = apply_boot_op(mid, ops.last());
        (end, count + if revealed { 1nat } else { 0nat })
    }
}

/// Over any interleaving of boot operations the main window is revealed at
/// most once, never again once shown, and it ends up shown exactly when one
/// operation revealed it.
pub proof fn lemma_reveal_at_most_once(v: Readiness, ops: Seq<BootOp>)
    ensures
        ({
            let (end, count) = run_boot(v, ops);
            &&& count <= 1
            &&& v.main_shown ==> count == 0 && end.main_shown
            &&& !v.main_shown ==> (count == 1 <==> end.main_shown)
        }),
    decreases ops.len(),
{
    if ops.len() > 0 {
        lemma_reveal_at_most_once(v, ops.drop_last());
    }
}

/// Once the page and the backend are ready, an attempt that finds the main
/// window leaves it shown for good, whatever the other threads do afterwards.
pub proof fn lemma_ready_attempt_reveals(v: Readiness, ops: Seq<BootOp>, i: int)
    requires
        0 <= i < ops.len(),
        ops[i] == (BootOp::TryReveal { main_exists: true }),
        run_boot(v, ops.take(i)).0.page_loaded,
        run_boot(v, ops.take(i)).0.backend_ready,
    ensures
        run_boot(v, ops).0.main_shown,
    decreases ops.len(),
{
    if i == ops.len() - 1 {
        assert(ops.drop_last() =~= ops.take(i));
    } else {
        assert(ops.drop_last().take(i) =~= ops.take(i));
        lemma_ready_attempt_reveals(v, ops.drop_last(), i);
    }
}

} // verus!
