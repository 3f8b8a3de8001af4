use vstd::prelude::*;

use crate::text::text_equals;

verus! {

/// How long the drain waits after asking the backend to release what it
/// holds, before the process exits.
pub const DRAIN_GRACE_MS: u64 = 500;

#[derive(Debug, Clone, Copy, PartialEq, Eq)]
pub enum ShutdownPhase {
    Running,
    Draining,
    Terminated,
}

/// The shutdown latch: the first trigger that moves it out of `Running` owns
/// the drain, and every later trigger is a no-op.
#[derive(Debug)]
pub struct ShutdownLatch {
    phase: ShutdownPhase,
}

impl View for ShutdownLatch {
    type V = ShutdownPhase;

    closed spec fn view(&self) -> ShutdownPhase {
        self.phase
    }
}

/// What the host does with a close or exit request.
#[derive(Debug, Clone, Copy, PartialEq, Eq)]
pub struct TriggerResponse {
    /// Prevent the default close or exit.
    pub suppress_default: bool,
    /// Run the drain sequence.
    pub start_drain: bool,
}

/// One step of the drain sequence.
#[derive(Debug, Clone, Copy, PartialEq, Eq)]
pub enum DrainStep {
    /// Ask the backend to stop any service it owns; failures are passed over.
    ReleaseBackend,
    /// Sleep.
    Wait { ms: u64 },
    /// End the process with this status.
    Exit { code: i32 },
}

pub open spec fn let_default() -> TriggerResponse {
    TriggerResponse { suppress_default: false, start_drain: false }
}

pub open spec fn take_over() -> TriggerResponse {
    TriggerResponse { suppress_default: true, start_drain: true }
}

/// The latch and the response after a close request on a window.
pub open spec fn close_response(phase: ShutdownPhase, splash_window: bool, main_shown: bool) -> (ShutdownPhase, TriggerResponse) {
    if splash_window && main_shown {
        (phase, let_default())
    } else if phase != ShutdownPhase::Running {
        (phase, let_default())
    } else {
        (ShutdownPhase::Draining, take_over())
    }
}

/// The latch and the response after an application-level exit request. Before
/// the main window was first shown the exit is held back and nothing drains.
pub open spec fn exit_response(phase: ShutdownPhase, main_shown: bool) -> (ShutdownPhase, TriggerResponse) {
    if !main_shown {
        (phase, TriggerResponse { suppress_default: true, start_drain: false })
    } else if phase != ShutdownPhase::Running {
        (phase, let_default())
    } else {
        (ShutdownPhase::Draining, take_over())
    }
}

/// Whether the window labelled `label` is the splash window.
pub fn is_splash_window(label: &str) -> (r: bool)
    ensures
        r == (label@ == "splash"@),
{
    text_equals(label, "splash")
}

/// The drain sequence: release the backend's services, wait the grace
/// period, exit with success.
pub fn drain_steps() -> (r: Vec<DrainStep>)
    ensures
        r@ == seq![DrainStep::ReleaseBackend, DrainStep::Wait { ms: DRAIN_GRACE_MS }, DrainStep::Exit { code: 0 }],
{
    vec![DrainStep::ReleaseBackend, DrainStep::Wait { ms: DRAIN_GRACE_MS }, DrainStep::Exit { code: 0 }]
}

impl ShutdownLatch {
    pub fn new() -> (r: ShutdownLatch)
        ensures
            r@ == ShutdownPhase::Running,
    {
        ShutdownLatch { phase: ShutdownPhase::Running }
    }

    pub fn phase(&self) -> (r: ShutdownPhase)
        ensures
            r == self@,
    {
        self.phase
    }

    /// A close request on the window labelled `label`; `main_shown` is the
    /// readiness latch of that name.
    pub fn on_close_requested(&mut self, label: &str, main_shown: bool) -> (r: TriggerResponse)
        ensures
            (final(self)@, r) == close_response(old(self)@, label@ == "splash"@, main_shown),
    {
        if is_splash_window(label) && main_shown {
            return TriggerResponse { suppress_default: false, start_drain: false };
        }
        self.begin_drain()
    }

    /// An application-level exit request.
    pub fn on_exit_requested(&mut self, main_shown: bool) -> (r: TriggerResponse)
        ensures
            (final(self)@, r) == exit_response(old(self)@, main_shown),
    {
        if !main_shown {
            return TriggerResponse { suppress_default: true, start_drain: false };
        }
        self.begin_drain()
    }

    /// Moves the latch out of `Running`; only that call takes over.
    fn begin_drain(&mut self) -> (r: TriggerResponse)
        ensures
            old(self)@ == ShutdownPhase::Running ==> final(self)@ == ShutdownPhase::Draining && r == take_over(),
            old(self)@ != ShutdownPhase::Running ==> final(self)@ == old(self)@ && r == let_default(),
    {
        match self.phase {
            ShutdownPhase::Running => {
                self.phase = ShutdownPhase::Draining;
                TriggerResponse { suppress_default: true, start_drain: true }
            },
            _ => TriggerResponse { suppress_default: false, start_drain: false },
        }
    }

    /// The drain sequence ran to its end.
    pub fn on_drained(&mut self)
        ensures
            final(self)@ == (if old(self)@ == ShutdownPhase::Draining { ShutdownPhase::Terminated } else { old(self)@ }),
    {
        if let ShutdownPhase::Draining = self.phase {
            self.phase = ShutdownPhase::Terminated;
        }
    }
}

/// A close or exit request, with what the readiness latch said when it came.
pub enum Trigger {
    Close { splash_window: bool, main_shown: bool },
    Exit { main_shown: bool },
}

pub open spec fn respond(phase: ShutdownPhase, t: Trigger) -> (ShutdownPhase, TriggerResponse) {
    match t {
        Trigger::Close { splash_window, main_shown } => close_response(phase, splash_window, main_shown),
        Trigger::Exit { main_shown } => exit_response(phase, main_shown),
    }
}

/// The latch after the triggers `ts`, in the order the latch saw them, and the
/// response to each.
pub open spec fn run_triggers(phase: ShutdownPhase, ts: Seq<Trigger>) -> (ShutdownPhase, Seq<TriggerResponse>)
    decreases ts.len(),
{
    if ts.len() == 0 {
        (phase, Seq::empty())
    } else {
        let (mid, rs) = run_triggers(phase, ts.drop_last());
        let (end, r) = respond(mid, ts.last());
        (end, rs.push(r))
    }
}

/// A response with no effect of its own: the default goes ahead and nothing
/// drains. The one exception is an exit that comes before the main window was
/// first shown, which is always held back.
pub open spec fn inert(t: Trigger, r: TriggerResponse) -> bool {
    &&& !r.start_drain
    &&& r.suppress_default ==> (t matches Trigger::Exit { main_shown } && !main_shown)
}

proof fn lemma_drain_leaves_running(phase: ShutdownPhase, ts: Seq<Trigger>, i: int)
    requires
        0 <= i < ts.len(),
        run_triggers(phase, ts).1.len() == ts.len(),
        run_triggers(phase, ts).1[i].start_drain,
    ensures
        run_triggers(phase, ts).0 != ShutdownPhase::Running,
    decreases ts.len(),
{
    lemma_one_response_each(phase, ts.drop_last());
    if i < ts.len() - 1 {
        lemma_drain_leaves_running(phase, ts.drop_last(), i);
    }
}

proof fn lemma_one_response_each(phase: ShutdownPhase, ts: Seq<Trigger>)
    ensures
        run_triggers(phase, ts).1.len() == ts.len(),
    decreases ts.len(),
{
    if ts.len() > 0 {
        lemma_one_response_each(phase, ts.drop_last());
    }
}

/// However close and exit requests interleave, the drain starts at most once:
/// every trigger after the one that started it is inert, and an exit that
/// comes before the main window was first shown never starts it.
pub proof fn lemma_drain_exactly_once(phase: ShutdownPhase, ts: Seq<Trigger>)
    ensures
        ({
            let (end, rs) = run_triggers(phase, ts);
            &&& rs.len() == ts.len()
            &&& forall|i: int, j: int| 0 <= i < j < ts.len() && #[trigger] rs[i].start_drain ==> inert(ts[j], #[trigger] rs[j])
            &&& forall|i: int| 0 <= i < ts.len() && (ts[i] matches Trigger::Exit { main_shown } && !main_shown)
                ==> !(#[trigger] rs[i]).start_drain
            &&& phase != ShutdownPhase::Running ==> forall|i: int| 0 <= i < ts.len() ==> inert(ts[i], #[trigger] rs[i])
            &&& phase != ShutdownPhase::Running ==> end == phase
        }),
    decreases ts.len(),
{
    lemma_one_response_each(phase, ts);
    if ts.len() > 0 {
        let prev = ts.drop_last();
        lemma_drain_exactly_once(phase, prev);
        lemma_one_response_each(phase, prev);
        let (mid, rs0) = run_triggers(phase, prev);
        let rs = run_triggers(phase, ts).1;
        assert(forall|k: int| 0 <= k < prev.len() ==> rs[k] == rs0[k] && ts[k] == prev[k]);
        assert forall|i: int, j: int| 0 <= i < j < ts.len() && #[trigger] rs[i].start_drain implies inert(ts[j], #[trigger] rs[j]) by {
            if j == ts.len() - 1 {
                lemma_drain_leaves_running(phase, prev, i);
            }
        }
    }
}

} // verus!
