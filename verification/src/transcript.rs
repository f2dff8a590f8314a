//! The transcript accumulator: consumes classified events in arrival order,
//! builds the human-readable transcript and the latest plan snapshot, and
//! detects the terminal event.

use vstd::prelude::*;
use vstd::string::*;

use crate::event::{Event, PlanEntry, PlanStatus};
use crate::strutil::{dec_int, dec_rep, u64_to_string, i32_to_string};

verus! {

/// How an event stream ended: the terminal success signal, or the in-band
/// error that stopped accumulation.
#[derive(Debug)]
pub enum Terminal {
    Finished,
    Failed { code: i32, message: String },
}

/// The status marker rendered for one plan entry.
pub open spec fn status_marker(s: PlanStatus) -> Seq<char> {
    match s {
        PlanStatus::Pending => "⏳"@,
        PlanStatus::InProgress => "🔄"@,
        PlanStatus::Completed => "✅"@,
    }
}

/// The rendering of one plan entry under its one-based number.
pub open spec fn plan_item(e: PlanEntry, num: nat) -> Seq<char> {
    dec_rep(num) + ". "@ + status_marker(e.status) + " "@ + e.content@
}

/// The rendering of the first `k` plan entries.
pub open spec fn plan_items(es: Seq<PlanEntry>, k: nat) -> Seq<char>
    decreases k,
{
    if k == 0 || k > es.len() {
        Seq::empty()
    } else {
        plan_items(es, (k - 1) as nat) + plan_item(es[k - 1], k)
    }
}

/// The rendering of a full plan snapshot. An empty snapshot renders as
/// nothing at all, heading included.
pub open spec fn render_plan(es: Seq<PlanEntry>) -> Seq<char> {
    if es.len() == 0 {
        Seq::empty()
    } else {
        "📋 Plan:"@ + plan_items(es, es.len())
    }
}

/// The text one event appends to the transcript.
pub open spec fn render_event(e: Event) -> Seq<char> {
    match e {
        Event::Assistant { content } => "🤖 Assistant: "@ + content@,
        Event::User { content } => "👤 User message: "@ + content@,
        Event::ToolCall { id, name, status } => "🔧 Tool call: "@ + id@ + " ("@ + name@
            + ") \""@ + status@ + "\""@,
        Event::Plan { entries } => render_plan(entries@),
        Event::TaskFinish => "✅ Task completed"@,
        Event::Error { code, message } => "❌ Error "@ + dec_int(code as int) + ": "@
            + message@,
    }
}

/// The terminal signal an event carries, if any.
pub open spec fn terminal_after(e: Event) -> Option<Terminal> {
    match e {
        Event::TaskFinish => Some(Terminal::Finished),
        Event::Error { code, message } => Some(Terminal::Failed { code, message }),
        _ => None,
    }
}

/// The plan snapshot after an event: a `Plan` event replaces it wholesale,
/// every other event leaves it alone.
pub open spec fn plan_after(p: Seq<PlanEntry>, e: Event) -> Seq<PlanEntry> {
    match e {
        Event::Plan { entries } => entries@,
        _ => p,
    }
}

/// Consumes the event sequence from transcript `t` and plan `p` on, stopping
/// at the first terminal event; yields the final transcript, plan and
/// terminal signal.
pub open spec fn accum_from(events: Seq<Event>, t: Seq<char>, p: Seq<PlanEntry>) -> (
    Seq<char>,
    Seq<PlanEntry>,
    Option<Terminal>,
)
    decreases events.len(),
{
    if events.len() == 0 {
        (t, p, None)
    } else {
        let e = events[0];
        let t2 = t + render_event(e);
        let p2 = plan_after(p, e);
        match terminal_after(e) {
            Some(term) => (t2, p2, Some(term)),
            None => accum_from(events.drop_first(), t2, p2),
        }
    }
}

/// Consumes the event sequence from a fresh accumulator.
pub open spec fn accum(events: Seq<Event>) -> (Seq<char>, Seq<PlanEntry>, Option<Terminal>) {
    accum_from(events, Seq::empty(), Seq::empty())
}

fn status_str(s: PlanStatus) -> (r: &'static str)
    ensures
        r@ == status_marker(s),
{
    match s {
        PlanStatus::Pending => "⏳",
        PlanStatus::InProgress => "🔄",
        PlanStatus::Completed => "✅",
    }
}

/// Accumulates the transcript, the latest plan snapshot, and the terminal
/// signal, one event at a time.
#[derive(Debug)]
pub struct Accumulator {
    pub transcript: String,
    pub plan: Vec<PlanEntry>,
    pub terminal: Option<Terminal>,
}

impl Accumulator {
    /// A fresh accumulator: empty transcript, empty plan, still running.
    pub fn new() -> (acc: Accumulator)
        ensures
            acc.transcript@ == Seq::<char>::empty(),
            acc.plan@ == Seq::<PlanEntry>::empty(),
            acc.terminal is None,
    {
        Accumulator { transcript: String::new(), plan: Vec::new(), terminal: None }
    }

    /// Consumes one event: appends its rendering in arrival order, replaces
    /// the plan snapshot on `Plan`, and records the terminal signal on
    /// `TaskFinish` or `Error`. Once a terminal event has been seen, later
    /// events change nothing.
    pub fn step(&mut self, e: Event)
        ensures
            old(self).terminal is Some ==> final(self).transcript@ == old(self).transcript@
                && final(self).plan@ == old(self).plan@ && final(self).terminal == old(
                self,
            ).terminal,
            old(self).terminal is None ==> final(self).transcript@ == old(self).transcript@
                + render_event(e) && final(self).plan@ == plan_after(old(self).plan@, e)
                && final(self).terminal == terminal_after(e),
    {
        if self.terminal.is_some() {
            return ;
        }
        match e {
            Event::Assistant { content } => {
                self.transcript.append("🤖 Assistant: ");
                self.transcript.append(content.as_str());
                proof {
                    assert(self.transcript@ =~= old(self).transcript@ + ("🤖 Assistant: "@
                        + content@));
                }
            },
            Event::User { content } => {
                self.transcript.append("👤 User message: ");
                self.transcript.append(content.as_str());
                proof {
                    assert(self.transcript@ =~= old(self).transcript@
                        + ("👤 User message: "@ + content@));
                }
            },
            Event::ToolCall { id, name, status } => {
                self.transcript.append("🔧 Tool call: ");
                self.transcript.append(id.as_str());
                self.transcript.append(" (");
                self.transcript.append(name.as_str());
                self.transcript.append(") \"");
                self.transcript.append(status.as_str());
                self.transcript.append("\"");
                proof {
                    assert(self.transcript@ =~= old(self).transcript@ + ("🔧 Tool call: "@
                        + id@ + " ("@ + name@ + ") \""@ + status@ + "\""@));
                }
            },
            Event::Plan { entries } => {
                let ghost pv = entries@;
                if entries.len() > 0 {
                    self.transcript.append("📋 Plan:");
                    proof {
                        assert(self.transcript@ =~= old(self).transcript@ + "📋 Plan:"@
                            + plan_items(pv, 0));
                    }
                    let n = entries.len();
                    let mut i: usize = 0;
                    while i < n
                        invariant
                            n == entries@.len(),
                            entries@ == pv,
                            i <= n,
                            self.transcript@ == old(self).transcript@ + "📋 Plan:"@ + plan_items(
                                pv,
                                i as nat,
                            ),
                            self.plan == old(self).plan,
                            self.terminal == old(self).terminal,
                        decreases n - i,
                    {
                        let num = u64_to_string(i as u64 + 1);
                        self.transcript.append(num.as_str());
                        self.transcript.append(". ");
                        self.transcript.append(status_str(entries[i].status));
                        self.transcript.append(" ");
                        self.transcript.append(entries[i].content.as_str());
                        proof {
                            assert(plan_items(pv, (i + 1) as nat) =~= plan_items(pv, i as nat)
                                + plan_item(pv[i as int], (i + 1) as nat));
                            assert(self.transcript@ =~= old(self).transcript@ + "📋 Plan:"@
                                + plan_items(pv, (i + 1) as nat));
                        }
                        i += 1;
                    }
                    proof {
                        assert(render_plan(pv) =~= "📋 Plan:"@ + plan_items(pv, pv.len()));
                        assert(self.transcript@ =~= old(self).transcript@ + render_plan(pv));
                    }
                } else {
                    proof {
                        assert(self.transcript@ =~= old(self).transcript@ + render_plan(pv));
                    }
                }
                self.plan = entries;
            },
            Event::TaskFinish => {
                self.transcript.append("✅ Task completed");
                self.terminal = Some(Terminal::Finished);
                proof {
                    assert(self.transcript@ =~= old(self).transcript@
                        + "✅ Task completed"@);
                }
            },
            Event::Error { code, message } => {
                self.transcript.append("❌ Error ");
                let num = i32_to_string(code);
                self.transcript.append(num.as_str());
                self.transcript.append(": ");
                self.transcript.append(message.as_str());
                proof {
                    assert(self.transcript@ =~= old(self).transcript@ + ("❌ Error "@
                        + dec_int(code as int) + ": "@ + message@));
                }
                self.terminal = Some(Terminal::Failed { code, message });
            },
        }
    }
}

/// Consumes a whole event sequence in order from a fresh accumulator,
/// stopping at the first terminal event.
pub fn run_events(events: Vec<Event>) -> (acc: Accumulator)
    ensures
        acc.transcript@ == accum(events@).0,
        acc.plan@ == accum(events@).1,
        acc.terminal == accum(events@).2,
{
    let ghost orig = events@;
    let mut events = events;
    let mut acc = Accumulator::new();
    proof {
        assert(accum(orig) == accum_from(events@, acc.transcript@, acc.plan@));
    }
    while events.len() > 0 && acc.terminal.is_none()
        invariant
            acc.terminal is None ==> accum(orig) == accum_from(
                events@,
                acc.transcript@,
                acc.plan@,
            ),
            acc.terminal matches Some(t) ==> accum(orig) == (
                acc.transcript@,
                acc.plan@,
                Some(t),
            ),
        decreases events.len(),
    {
        let ghost pre = events@;
        let ghost t0 = acc.transcript@;
        let ghost p0 = acc.plan@;
        let e = events.remove(0);
        proof {
            assert(events@ =~= pre.drop_first());
            assert(e == pre[0]);
        }
        acc.step(e);
        proof {
            if acc.terminal is None {
                assert(accum_from(pre, t0, p0) == accum_from(events@, acc.transcript@, acc.plan@));
            } else {
                assert(accum_from(pre, t0, p0) == (acc.transcript@, acc.plan@, acc.terminal));
            }
        }
    }
    proof {
        if acc.terminal is None {
            assert(accum_from(events@, acc.transcript@, acc.plan@) == (
                acc.transcript@,
                acc.plan@,
                Option::<Terminal>::None,
            ));
        }
    }
    acc
}

/// The concatenated renderings of the first `n` events, in arrival order.
pub open spec fn renders_upto(events: Seq<Event>, n: int) -> Seq<char>
    decreases n,
{
    if n <= 0 {
        Seq::empty()
    } else {
        renders_upto(events, n - 1) + render_event(events[n - 1])
    }
}

proof fn lemma_renders_shift(events: Seq<Event>, n: int)
    requires
        0 <= n,
        n + 1 <= events.len(),
    ensures
        renders_upto(events, n + 1) =~= render_event(events[0]) + renders_upto(
            events.drop_first(),
            n,
        ),
    decreases n,
{
    if n == 0 {
        assert(renders_upto(events, 0) == Seq::<char>::empty());
        assert(renders_upto(events.drop_first(), 0) == Seq::<char>::empty());
        assert(renders_upto(events, 1) =~= render_event(events[0]));
    } else {
        lemma_renders_shift(events, n - 1);
        assert(events.drop_first()[n - 1] == events[n]);
    }
}

proof fn lemma_accum_from_stops(events: Seq<Event>, t: Seq<char>, p: Seq<PlanEntry>, k: int)
    requires
        0 <= k < events.len(),
        terminal_after(events[k]) is Some,
        forall|j: int| 0 <= j < k ==> terminal_after(events[j]) is None,
    ensures
        accum_from(events, t, p).0 =~= t + renders_upto(events, k + 1),
        accum_from(events, t, p).2 == terminal_after(events[k]),
        accum_from(events, t, p).0 == accum_from(events.take(k + 1), t, p).0,
        accum_from(events, t, p).2 == accum_from(events.take(k + 1), t, p).2,
    decreases k,
{
    let taken = events.take(k + 1);
    assert(taken[0] == events[0]);
    if k == 0 {
        assert(renders_upto(events, 0) == Seq::<char>::empty());
        assert(renders_upto(taken, 0) == Seq::<char>::empty());
        assert(renders_upto(events, 1) =~= render_event(events[0]));
        assert(renders_upto(taken, 1) =~= render_event(taken[0]));
    } else {
        let t2 = t + render_event(events[0]);
        let p2 = plan_after(p, events[0]);
        let rest = events.drop_first();
        assert(forall|j: int| 0 <= j < k - 1 ==> rest[j] == events[j + 1]);
        assert(rest[k - 1] == events[k]);
        lemma_accum_from_stops(rest, t2, p2, k - 1);
        lemma_renders_shift(events, k);
        assert(accum_from(events, t, p).0 =~= t + renders_upto(events, k + 1));
        assert(taken.drop_first() =~= rest.take(k));
    }
}

/// For every session whose event stream carries `TaskFinish` before any
/// `Error`, accumulation ends in the terminal success signal and the
/// transcript is the rendering of every observed event, in arrival order.
pub proof fn lemma_success_transcript(events: Seq<Event>, k: int)
    requires
        0 <= k < events.len(),
        events[k] is TaskFinish,
        forall|j: int| 0 <= j < k ==> !(events[j] is TaskFinish) && !(events[j] is Error),
    ensures
        accum(events).2 == Some(Terminal::Finished),
        accum(events).0 =~= renders_upto(events, k + 1),
{
    assert(forall|j: int| 0 <= j < k ==> terminal_after(#[trigger] events[j]) is None);
    lemma_accum_from_stops(events, Seq::empty(), Seq::empty(), k);
}

/// An in-band terminal event short-circuits accumulation: events delivered
/// after the first `Error` (or `TaskFinish`) contribute nothing to the
/// transcript or to the terminal signal.
pub proof fn lemma_error_short_circuits(events: Seq<Event>, k: int)
    requires
        0 <= k < events.len(),
        terminal_after(events[k]) is Some,
        forall|j: int| 0 <= j < k ==> terminal_after(events[j]) is None,
    ensures
        accum(events).0 == accum(events.take(k + 1)).0,
        accum(events).2 == accum(events.take(k + 1)).2,
{
    lemma_accum_from_stops(events, Seq::empty(), Seq::empty(), k);
}

/// A `Plan` event fully replaces prior plan state: whatever snapshot an
/// earlier `Plan` installed, after a later `Plan` the snapshot holds exactly
/// the later event's entries.
pub proof fn lemma_plan_replaces(p: Seq<PlanEntry>, a: Vec<PlanEntry>, b: Vec<PlanEntry>)
    ensures
        plan_after(plan_after(p, Event::Plan { entries: a }), Event::Plan { entries: b }) == b@,
{
}

} // verus!
