use vstd::prelude::*;

use crate::step::{ends_proxy_session, should_stop_proxy_step, step_fields_of};

verus! {

/// How long one pull may wait for a new event.
pub const POLL_TIMEOUT_MS: i64 = 1000;

/// The most events that one pull hands back.
pub const MAX_BATCH_ITEMS: i64 = 200;

/// The pause after a failed pull, before the next one.
pub const RETRY_BACKOFF_MS: u64 = 200;

/// When a stream ends on its own, apart from its sink going away.
#[derive(Debug, Clone, Copy, PartialEq, Eq)]
pub enum StopRule {
    /// Runs until the sink is gone.
    Never,
    /// Ends after the first step/status record that closes a proxy session.
    ProxyStep,
}

#[derive(Debug, Clone, Copy, PartialEq, Eq)]
pub enum StreamPhase {
    /// One pull that only learns the newest cursor; its events are dropped.
    Priming,
    /// Pulls and delivers.
    Polling,
    /// Nothing more is pulled.
    Finished,
}

/// The arguments of one pull from the backend's event source.
#[derive(Debug, Clone, Copy, PartialEq, Eq)]
pub struct PullRequest {
    pub after: Option<i64>,
    pub timeout_ms: i64,
    pub max_items: i64,
}

/// A delivered log batch together with the cursor that resumes after it.
#[derive(Debug, Clone, PartialEq, Eq)]
pub struct LogBatch {
    pub items: Vec<String>,
    pub next_id: i64,
}

/// One stream instance: a cursor over one backend event source and where the
/// polling loop stands. The host performs each pull and delivery and reports
/// the outcome back.
#[derive(Debug)]
pub struct EventStream {
    pub rule: StopRule,
    pub phase: StreamPhase,
    pub cursor: Option<i64>,
}

/// Whether `item` ends a stream that follows `rule`.
pub open spec fn stops(rule: StopRule, item: Seq<char>) -> bool {
    match rule {
        StopRule::Never => false,
        StopRule::ProxyStep => ends_proxy_session(item),
    }
}

/// Whether any event of `items` ends the stream.
pub open spec fn any_stops(rule: StopRule, items: Seq<String>) -> bool
    decreases items.len(),
{
    items.len() > 0 && (stops(rule, items[0]@) || any_stops(rule, items.drop_first()))
}

/// How many leading events of a batch are delivered: all of them, or those up
/// to and including the first one that ends the stream.
pub open spec fn delivered_count(rule: StopRule, items: Seq<String>) -> nat
    decreases items.len(),
{
    if items.len() == 0 {
        0
    } else if stops(rule, items[0]@) {
        1
    } else {
        1 + delivered_count(rule, items.drop_first())
    }
}

impl EventStream {
    /// The pull that the stream asks for next, if any.
    pub open spec fn pull_spec(self) -> Option<PullRequest> {
        match self.phase {
            StreamPhase::Priming => Some(PullRequest { after: None, timeout_ms: 0, max_items: 1 }),
            StreamPhase::Polling => Some(
                PullRequest {
                    after: self.cursor,
                    timeout_ms: POLL_TIMEOUT_MS,
                    max_items: MAX_BATCH_ITEMS,
                },
            ),
            StreamPhase::Finished => None,
        }
    }

    /// The stream after a pull that answered `items` and `next`, and how many
    /// leading events of `items` go to the sink.
    pub open spec fn after_batch(self, items: Seq<String>, next: Option<i64>) -> (EventStream, nat) {
        match self.phase {
            StreamPhase::Priming => (EventStream { rule: self.rule, phase: StreamPhase::Polling, cursor: next }, 0),
            StreamPhase::Polling => {
                let cursor = if next is Some { next } else { self.cursor };
                let phase = if any_stops(self.rule, items) {
                    StreamPhase::Finished
                } else {
                    StreamPhase::Polling
                };
                (EventStream { rule: self.rule, phase, cursor }, delivered_count(self.rule, items))
            },
            StreamPhase::Finished => (self, 0),
        }
    }

    /// The stream after a failed pull, and the pause before the next one.
    pub open spec fn after_failure(self) -> (EventStream, u64) {
        match self.phase {
            StreamPhase::Priming => (EventStream { rule: self.rule, phase: StreamPhase::Polling, cursor: self.cursor }, 0),
            StreamPhase::Polling => (self, RETRY_BACKOFF_MS),
            StreamPhase::Finished => (self, 0),
        }
    }

    /// A stream with no cursor yet; with `start_from_latest` it first primes
    /// its cursor so that no earlier event is replayed.
    pub fn new(rule: StopRule, start_from_latest: bool) -> (r: EventStream)
        ensures
            r.rule == rule,
            r.cursor is None,
            r.phase == (if start_from_latest { StreamPhase::Priming } else { StreamPhase::Polling }),
    {
        let phase = if start_from_latest { StreamPhase::Priming } else { StreamPhase::Polling };
        EventStream { rule, phase, cursor: None }
    }

    /// The log stream: from the start of the log, until its sink is gone.
    pub fn log_stream() -> (r: EventStream)
        ensures
            r == (EventStream { rule: StopRule::Never, phase: StreamPhase::Polling, cursor: None }),
    {
        EventStream::new(StopRule::Never, false)
    }

    /// The proxy-step stream that a subscriber asked for; an absent flag means
    /// from the start.
    pub fn proxy_step_stream(start_from_latest: Option<bool>) -> (r: EventStream)
        ensures
            r.rule == StopRule::ProxyStep,
            r.cursor is None,
            r.phase == (if start_from_latest == Some(true) { StreamPhase::Priming } else { StreamPhase::Polling }),
    {
        let latest = match start_from_latest {
            Some(b) => b,
            None => false,
        };
        EventStream::new(StopRule::ProxyStep, latest)
    }

    pub fn is_finished(&self) -> (r: bool)
        ensures
            r == (self.phase == StreamPhase::Finished),
    {
        match self.phase {
            StreamPhase::Finished => true,
            _ => false,
        }
    }

    /// The next pull to make, or `None` once the stream has ended.
    pub fn next_pull(&self) -> (r: Option<PullRequest>)
        ensures
            r == self.pull_spec(),
    {
        match self.phase {
            StreamPhase::Priming => Some(PullRequest { after: None, timeout_ms: 0, max_items: 1 }),
            StreamPhase::Polling => Some(
                PullRequest {
                    after: self.cursor,
                    timeout_ms: POLL_TIMEOUT_MS,
                    max_items: MAX_BATCH_ITEMS,
                },
            ),
            StreamPhase::Finished => None,
        }
    }

    /// Takes in a pull's answer; returns how many leading events of `items`
    /// the host hands to the sink, in order. An empty answer is a timeout: the
    /// next pull follows at once.
    pub fn on_batch(&mut self, items: &Vec<String>, next: Option<i64>) -> (n: usize)
        ensures
            (*final(self), n as nat) == old(self).after_batch(items@, next),
    {
        match self.phase {
            StreamPhase::Priming => {
                self.phase = StreamPhase::Polling;
                self.cursor = next;
                0
            },
            StreamPhase::Polling => {
                if next.is_some() {
                    self.cursor = next;
                }
                let (n, ended) = delivery_prefix(self.rule, items);
                if ended {
                    self.phase = StreamPhase::Finished;
                }
                n
            },
            StreamPhase::Finished => 0,
        }
    }

    /// Takes in a failed pull; returns the pause, in milliseconds, before the
    /// next pull. A failed priming pull is passed over without a pause.
    pub fn on_pull_failed(&mut self) -> (backoff_ms: u64)
        ensures
            (*final(self), backoff_ms) == old(self).after_failure(),
    {
        match self.phase {
            StreamPhase::Priming => {
                self.phase = StreamPhase::Polling;
                0
            },
            StreamPhase::Polling => RETRY_BACKOFF_MS,
            StreamPhase::Finished => 0,
        }
    }

    /// The sink refused a delivery: the stream ends at once.
    pub fn on_sink_closed(&mut self)
        ensures
            *final(self) == (EventStream { rule: old(self).rule, phase: StreamPhase::Finished, cursor: old(self).cursor }),
    {
        self.phase = StreamPhase::Finished;
    }

    /// The payload that carries `items` to the display, with the cursor to
    /// resume from (zero before any cursor is known).
    pub fn log_payload(&self, items: Vec<String>) -> (r: LogBatch)
        ensures
            r.items@ == items@,
            r.next_id == match self.cursor {
                Some(c) => c,
                None => 0,
            },
    {
        let next_id = match self.cursor {
            Some(c) => c,
            None => 0,
        };
        LogBatch { items, next_id }
    }
}

/// The count of delivered events, and whether one of them ends the stream.
fn delivery_prefix(rule: StopRule, items: &Vec<String>) -> (r: (usize, bool))
    ensures
        r.0 as nat == delivered_count(rule, items@),
        r.1 == any_stops(rule, items@),
{
    let len = items.len();
    let mut i: usize = 0;
    while i < len
        invariant
            len == items@.len(),
            i <= len,
            forall|j: int| 0 <= j < i ==> !stops(rule, #[trigger] items@[j]@),
        decreases len - i,
    {
        let stop = match rule {
            StopRule::Never => false,
            StopRule::ProxyStep => should_stop_proxy_step(items[i].as_str()),
        };
        if stop {
            proof {
                lemma_skip_quiet_prefix(rule, items@, i as int);
                let rest = items@.subrange(i as int, len as int);
                assert(rest[0] == items@[i as int]);
            }
            return (i + 1, true);
        }
        i = i + 1;
    }
    proof {
        lemma_skip_quiet_prefix(rule, items@, len as int);
    }
    (len, false)
}

/// Events that do not end the stream are passed over one for one.
proof fn lemma_skip_quiet_prefix(rule: StopRule, items: Seq<String>, i: int)
    requires
        0 <= i <= items.len(),
        forall|j: int| 0 <= j < i ==> !stops(rule, #[trigger] items[j]@),
    ensures
        delivered_count(rule, items) == i + delivered_count(rule, items.subrange(i, items.len() as int)),
        any_stops(rule, items) == any_stops(rule, items.subrange(i, items.len() as int)),
    decreases i,
{
    if i > 0 {
        let tail = items.drop_first();
        assert forall|j: int| 0 <= j < i - 1 implies !stops(rule, #[trigger] tail[j]@) by {
            assert(tail[j] == items[j + 1]);
        }
        lemma_skip_quiet_prefix(rule, tail, i - 1);
        assert(tail.subrange(i - 1, tail.len() as int) =~= items.subrange(i, items.len() as int));
        assert(!stops(rule, items[0]@));
    } else {
        assert(items.subrange(0, items.len() as int) =~= items);
    }
}

/// A model of the backend's event source: an append-only `log` where the
/// cursor `c` stands for "the first `c` events were handed out". A pull after
/// `after` that finds `take` events ready answers the next ones and the cursor
/// past them; `take == 0` is a timeout.
pub open spec fn backend_reply(log: Seq<String>, after: Option<i64>, take: nat) -> (Seq<String>, Option<i64>) {
    let from = match after {
        Some(c) => if c < 0 { 0 } else if c > log.len() { log.len() as int } else { c as int },
        None => 0,
    };
    let to = if from + take > log.len() { log.len() as int } else { from + take };
    (log.subrange(from, to), Some(to as i64))
}

/// The stream after it made one pull per entry of `takes` against the model
/// backend, and the events it delivered, in order.
pub open spec fn run_against(s: EventStream, log: Seq<String>, takes: Seq<nat>) -> (EventStream, Seq<String>)
    decreases takes.len(),
{
    if takes.len() == 0 {
        (s, Seq::empty())
    } else {
        let (mid, out) = run_against(s, log, takes.drop_last());
        match mid.pull_spec() {
            Some(req) => {
                let (items, next) = backend_reply(log, req.after, takes.last());
                let (end, n) = mid.after_batch(items, next);
                (end, out + items.take(n as int))
            },
            None => (mid, out),
        }
    }
}

/// The number of events that the pulls of `takes` can hand out in all.
pub open spec fn total(takes: Seq<nat>) -> nat
    decreases takes.len(),
{
    if takes.len() == 0 {
        0
    } else {
        total(takes.drop_last()) + takes.last()
    }
}

/// A sequence in which no event ends the stream holds no such event anywhere.
proof fn lemma_quiet_everywhere(rule: StopRule, items: Seq<String>)
    requires
        !any_stops(rule, items),
    ensures
        forall|j: int| 0 <= j < items.len() ==> !stops(rule, #[trigger] items[j]@),
    decreases items.len(),
{
    if items.len() > 0 {
        let tail = items.drop_first();
        lemma_quiet_everywhere(rule, tail);
        assert forall|j: int| 0 <= j < items.len() implies !stops(rule, #[trigger] items[j]@) by {
            if j > 0 {
                assert(items[j] == tail[j - 1]);
            }
        }
    }
}

/// On the first `j` events of `items`, the delivered count is cut at `j`, and
/// they end the stream exactly when the stopping event of `items` is among them.
proof fn lemma_prefix_delivery(rule: StopRule, items: Seq<String>, j: int)
    requires
        0 <= j <= items.len(),
    ensures
        delivered_count(rule, items.take(j)) == if j < delivered_count(rule, items) {
            j as nat
        } else {
            delivered_count(rule, items)
        },
        any_stops(rule, items.take(j)) == (any_stops(rule, items) && delivered_count(rule, items) <= j),
    decreases j,
{
    if j == 0 {
        assert(items.take(0) =~= Seq::<String>::empty());
    } else {
        let tail = items.drop_first();
        assert(items.take(j)[0] == items[0]);
        assert(items.take(j).drop_first() =~= tail.take(j - 1));
        if !stops(rule, items[0]@) {
            lemma_prefix_delivery(rule, tail, j - 1);
        }
    }
}

/// Threading the cursor through successive pulls delivers the backend's log
/// exactly: the sink receives the log's prefix up to the cursor, with no event
/// repeated, lost or moved, and never beyond the first event that ends the
/// stream, after which nothing more is pulled.
pub proof fn lemma_contiguous_delivery(s: EventStream, log: Seq<String>, takes: Seq<nat>)
    requires
        s.phase == StreamPhase::Polling,
        s.cursor is None,
        log.len() <= i64::MAX,
    ensures
        ({
            let (end, out) = run_against(s, log, takes);
            let pos = if total(takes) > log.len() { log.len() } else { total(takes) };
            let limit = delivered_count(s.rule, log);
            &&& out == log.subrange(0, if pos < limit { pos as int } else { limit as int })
            &&& end.rule == s.rule
            &&& end.phase != StreamPhase::Priming
            &&& (end.phase == StreamPhase::Finished <==> (any_stops(s.rule, log) && limit <= pos))
            &&& end.phase == StreamPhase::Polling && takes.len() > 0 ==> end.cursor == Some(pos as i64)
            &&& takes.len() == 0 ==> end.cursor is None
        }),
    decreases takes.len(),
{
    if takes.len() == 0 {
        assert(log.subrange(0, 0) =~= Seq::<String>::empty());
    } else {
        let prev = takes.drop_last();
        lemma_contiguous_delivery(s, log, prev);
        let (mid, out) = run_against(s, log, prev);
        let from = if total(prev) > log.len() { log.len() } else { total(prev) };
        let to = if total(takes) > log.len() { log.len() } else { total(takes) };
        let limit = delivered_count(s.rule, log);
        if mid.phase == StreamPhase::Polling {
            lemma_prefix_delivery(s.rule, log, from as int);
            lemma_quiet_everywhere(s.rule, log.take(from as int));
            assert forall|j: int| 0 <= j < from implies !stops(s.rule, #[trigger] log[j]@) by {
                assert(log.take(from as int)[j] == log[j]);
            }
            lemma_skip_quiet_prefix(s.rule, log, from as int);
            let rest = log.subrange(from as int, log.len() as int);
            let req = mid.pull_spec().unwrap();
            assert(req.after == mid.cursor);
            let (items, next) = backend_reply(log, req.after, takes.last());
            assert(items =~= rest.take(to - from));
            lemma_prefix_delivery(s.rule, rest, to - from);
            let n = delivered_count(s.rule, items);
            assert(items.take(n as int) =~= log.subrange(from as int, (from + n) as int));
            assert(log.subrange(0, from as int) + log.subrange(from as int, (from + n) as int) =~= log.subrange(0, (from + n) as int));
        }
    }
}

/// A proxy-step stream ends on the first event whose record failed or comes
/// from the proxy stage, and delivers nothing after it; any other event,
/// one that does not decode included, leaves it running.
pub proof fn lemma_proxy_stream_stops_at_session_end(s: EventStream, items: Seq<String>, next: Option<i64>)
    requires
        s.phase == StreamPhase::Polling,
        s.rule == StopRule::ProxyStep,
    ensures
        ({
            let (end, n) = s.after_batch(items, next);
            &&& n <= items.len()
            &&& forall|j: int| 0 <= j < n - 1 ==> !ends_proxy_session(#[trigger] items[j]@)
            &&& end.phase == StreamPhase::Finished <==> (n > 0 && ends_proxy_session(items[n - 1]@))
            &&& n < items.len() ==> end.phase == StreamPhase::Finished
            &&& end.phase == StreamPhase::Finished ==> end.pull_spec() is None
            &&& (forall|j: int| 0 <= j < items.len() ==> !ends_proxy_session(#[trigger] items[j]@))
                ==> (n == items.len() && end.phase == StreamPhase::Polling)
        }),
        forall|p: Seq<char>| #[trigger] step_fields_of(p) is None ==> !ends_proxy_session(p),
    decreases items.len(),
{
    if items.len() > 0 && !stops(s.rule, items[0]@) {
        let tail = items.drop_first();
        lemma_proxy_stream_stops_at_session_end(s, tail, next);
        assert forall|j: int| 0 <= j < delivered_count(s.rule, items) - 1 implies !ends_proxy_session(#[trigger] items[j]@) by {
            if j > 0 {
                assert(items[j] == tail[j - 1]);
            }
        }
        if delivered_count(s.rule, tail) > 0 {
            assert(items[delivered_count(s.rule, items) - 1] == tail[delivered_count(s.rule, tail) - 1]);
        }
        if forall|j: int| 0 <= j < items.len() ==> !ends_proxy_session(#[trigger] items[j]@) {
            assert forall|j: int| 0 <= j < tail.len() implies !ends_proxy_session(#[trigger] tail[j]@) by {
                assert(tail[j] == items[j + 1]);
            }
        }
    }
}

/// The model backend's answer to the priming pull (no cursor, no wait, one
/// event at most): at most the newest event, and the cursor past it, which is
/// the position the priming pull exists to learn.
pub open spec fn latest_reply(log: Seq<String>) -> (Seq<String>, Option<i64>) {
    let start = if log.len() == 0 { 0 } else { log.len() - 1 };
    (log.subrange(start, log.len() as int), Some(log.len() as i64))
}

/// A stream that starts from the latest event, over a backend that already
/// holds `backlog` when it primes and receives one more event afterwards,
/// delivers that event alone once a pull finds it, and none of the backlog.
pub proof fn lemma_latest_skips_backlog(rule: StopRule, backlog: Seq<String>, arrived: String, take: nat)
    requires
        backlog.len() < i64::MAX,
        take >= 1,
    ensures
        ({
            let start = EventStream { rule, phase: StreamPhase::Priming, cursor: None };
            let prime = start.pull_spec().unwrap();
            let (primed, primed_next) = latest_reply(backlog);
            let (primed_stream, skipped) = start.after_batch(primed, primed_next);
            let log = backlog.push(arrived);
            let (items, next) = backend_reply(log, primed_stream.pull_spec().unwrap().after, take);
            let (_, n) = primed_stream.after_batch(items, next);
            &&& prime == PullRequest { after: None, timeout_ms: 0, max_items: 1 }
            &&& skipped == 0
            &&& items.take(n as int) == seq![arrived]
        }),
{
    let log = backlog.push(arrived);
    let n = backlog.len() as int;
    let items = log.subrange(n, n + 1);
    assert(items =~= seq![arrived]);
    assert(items.drop_first() =~= Seq::<String>::empty());
    assert(delivered_count(rule, items.drop_first()) == 0);
    assert(delivered_count(rule, items) == 1);
    assert(items.take(1) =~= seq![arrived]);
}

} // verus!
