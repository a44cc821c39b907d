//! The bot orchestrator's inner-loop decisions and the single-flight
//! execution gate.
//!
//! The surrounding process owns the wake sources (the event stream, the
//! error channel, the periodic timer) and performs the directives (applying
//! event batches to the snapshot, running the strategy, rebuilding the
//! pipeline). This module decides, from the loop state and one wake, what
//! comes next; two strategy executions are never in flight at once.

use vstd::prelude::*;

verus! {

/// What the inner loop's decisions depend on: whether the single-slot
/// execution permit is checked out, and how many raw event batches wait to
/// be applied. The batches themselves stay with the caller; the count
/// saturates at the machine limit.
#[derive(Clone, Copy, Debug, PartialEq, Eq, Structural)]
pub struct LoopState {
    /// Whether the single execution permit is checked out.
    pub permit_held: bool,
    /// How many raw event batches are buffered, waiting for a permit.
    pub pending_batches: u64,
}

/// One wake of the inner loop. The three wake sources are selected in
/// arrival order, with no priority; `SubmissionSettled` is how a finished
/// execution hands the permit back.
#[derive(Clone, Copy, Debug, PartialEq, Eq, Structural)]
pub enum Wake {
    /// The event stream yielded a raw batch.
    StreamBatch,
    /// The event stream closed or yielded a decode error.
    StreamFailed,
    /// A previous submission reported a failure on the error channel.
    ErrorReport,
    /// The error channel closed.
    ErrorChannelClosed,
    /// The periodic timer ticked.
    Tick,
    /// The outcome of a submission became known, or there was nothing to
    /// submit: the permit returns to its slot.
    SubmissionSettled,
}

impl Wake {
    /// Whether this wake hands the permit back or tears the pipeline down.
    pub open spec fn releases(self) -> bool {
        self == Wake::SubmissionSettled || self == Wake::StreamFailed
            || self == Wake::ErrorChannelClosed
    }
}

/// What the loop must do on a wake.
#[derive(Clone, Copy, Debug, PartialEq, Eq, Structural)]
pub enum Directive {
    /// Permit acquired: apply every buffered batch to the snapshot, then
    /// run the strategy once over the merged events (settling immediately
    /// if nothing relevant was applied).
    DrainAndExecute,
    /// Permit acquired: run the strategy over an empty event batch.
    ExecuteEmpty,
    /// A previous execution is still in flight: drop this wake, with no
    /// queuing and no retry until the next wake.
    SkipBusy,
    /// Tear the snapshot and the stream down and rebuild from scratch.
    Restart,
    /// Nothing to do.
    Idle,
}

impl Directive {
    /// Whether the directive starts a strategy execution, taking the permit.
    pub open spec fn starts_execution(self) -> bool {
        self == Directive::DrainAndExecute || self == Directive::ExecuteEmpty
    }
}

/// The buffered-batch count after one more batch arrives.
pub open spec fn bump(n: u64) -> u64 {
    if n == u64::MAX {
        n
    } else {
        (n + 1) as u64
    }
}

/// The loop's reaction to one wake: the next state and the directive.
pub open spec fn step_spec(s: LoopState, w: Wake) -> (LoopState, Directive) {
    match w {
        Wake::StreamBatch => if s.permit_held {
            (
                LoopState { permit_held: true, pending_batches: bump(s.pending_batches) },
                Directive::SkipBusy,
            )
        } else {
            (LoopState { permit_held: true, pending_batches: 0 }, Directive::DrainAndExecute)
        },
        Wake::StreamFailed => (
            LoopState { permit_held: false, pending_batches: 0 },
            Directive::Restart,
        ),
        Wake::ErrorChannelClosed => (
            LoopState { permit_held: false, pending_batches: 0 },
            Directive::Restart,
        ),
        Wake::ErrorReport => if s.permit_held {
            (s, Directive::SkipBusy)
        } else {
            (
                LoopState { permit_held: true, pending_batches: s.pending_batches },
                Directive::ExecuteEmpty,
            )
        },
        Wake::Tick => if s.permit_held {
            (s, Directive::SkipBusy)
        } else {
            (
                LoopState { permit_held: true, pending_batches: s.pending_batches },
                Directive::ExecuteEmpty,
            )
        },
        Wake::SubmissionSettled => (
            LoopState { permit_held: false, pending_batches: s.pending_batches },
            Directive::Idle,
        ),
    }
}

/// The loop state at the start of a run: permit in its slot, nothing
/// buffered.
pub fn initial_state() -> (r: LoopState)
    ensures
        r == (LoopState { permit_held: false, pending_batches: 0 }),
{
    LoopState { permit_held: false, pending_batches: 0 }
}

/// React to one wake. An execution only ever starts from a state where the
/// permit is in its slot, and it takes the permit with it.
pub fn loop_step(s: LoopState, w: Wake) -> (r: (LoopState, Directive))
    ensures
        r == step_spec(s, w),
        r.1.starts_execution() ==> !s.permit_held && r.0.permit_held,
{
    match w {
        Wake::StreamBatch => {
            if s.permit_held {
                let n = if s.pending_batches == u64::MAX {
                    s.pending_batches
                } else {
                    s.pending_batches + 1
                };
                (LoopState { permit_held: true, pending_batches: n }, Directive::SkipBusy)
            } else {
                (LoopState { permit_held: true, pending_batches: 0 }, Directive::DrainAndExecute)
            }
        },
        Wake::StreamFailed => (
            LoopState { permit_held: false, pending_batches: 0 },
            Directive::Restart,
        ),
        Wake::ErrorChannelClosed => (
            LoopState { permit_held: false, pending_batches: 0 },
            Directive::Restart,
        ),
        Wake::ErrorReport => {
            if s.permit_held {
                (s, Directive::SkipBusy)
            } else {
                (
                    LoopState { permit_held: true, pending_batches: s.pending_batches },
                    Directive::ExecuteEmpty,
                )
            }
        },
        Wake::Tick => {
            if s.permit_held {
                (s, Directive::SkipBusy)
            } else {
                (
                    LoopState { permit_held: true, pending_batches: s.pending_batches },
                    Directive::ExecuteEmpty,
                )
            }
        },
        Wake::SubmissionSettled => (
            LoopState { permit_held: false, pending_batches: s.pending_batches },
            Directive::Idle,
        ),
    }
}

/// The loop state after a whole sequence of wakes.
pub open spec fn run_wakes(s: LoopState, ws: Seq<Wake>) -> LoopState
    decreases ws.len(),
{
    if ws.len() == 0 {
        s
    } else {
        run_wakes(step_spec(s, ws[0]).0, ws.drop_first())
    }
}

/// While no wake settles the running execution or restarts the pipeline,
/// the permit stays out.
proof fn lemma_held_persists(s: LoopState, ws: Seq<Wake>)
    requires
        s.permit_held,
        forall|k: int| 0 <= k < ws.len() ==> !(#[trigger] ws[k]).releases(),
    ensures
        run_wakes(s, ws).permit_held,
    decreases ws.len(),
{
    if ws.len() > 0 {
        assert(!ws[0].releases());
        let s1 = step_spec(s, ws[0]).0;
        assert(s1.permit_held);
        assert(forall|k: int|
            0 <= k < ws.drop_first().len() ==> !(#[trigger] ws.drop_first()[k]).releases());
        lemma_held_persists(s1, ws.drop_first());
    }
}

/// Running a trace splits at any point.
proof fn lemma_run_wakes_split(s: LoopState, ws: Seq<Wake>, i: int)
    requires
        0 <= i <= ws.len(),
    ensures
        run_wakes(s, ws) == run_wakes(run_wakes(s, ws.take(i)), ws.skip(i)),
    decreases i,
{
    if i == 0 {
        assert(ws.skip(0) =~= ws);
    } else {
        let s1 = step_spec(s, ws[0]).0;
        lemma_run_wakes_split(s1, ws.drop_first(), i - 1);
        assert(ws.take(i).drop_first() =~= ws.drop_first().take(i - 1));
        assert(ws.take(i).len() > 0);
        assert(run_wakes(s, ws.take(i)) == run_wakes(s1, ws.drop_first().take(i - 1)));
        assert(ws.drop_first().skip(i - 1) =~= ws.skip(i));
    }
}

/// One step extends a prefix run.
proof fn lemma_run_wakes_snoc(s: LoopState, ws: Seq<Wake>, i: int)
    requires
        0 <= i < ws.len(),
    ensures
        run_wakes(s, ws.take(i + 1)) == step_spec(run_wakes(s, ws.take(i)), ws[i]).0,
{
    lemma_run_wakes_split(s, ws.take(i + 1), i);
    assert(ws.take(i + 1).take(i) =~= ws.take(i));
    let si = run_wakes(s, ws.take(i));
    let tail = ws.take(i + 1).skip(i);
    assert(tail =~= seq![ws[i]]);
    assert(run_wakes(si, tail) == run_wakes(step_spec(si, ws[i]).0, tail.drop_first()));
    assert(tail.drop_first() =~= Seq::<Wake>::empty());
}

/// Single flight: between any two wakes on which the loop starts an
/// execution, some wake settles the first execution or restarts the
/// pipeline. At most one execution is in flight at any instant, whatever
/// the wakes' order.
pub proof fn lemma_single_flight(s0: LoopState, ws: Seq<Wake>, i: int, j: int)
    requires
        0 <= i < j < ws.len(),
        step_spec(run_wakes(s0, ws.take(i)), ws[i]).1.starts_execution(),
        step_spec(run_wakes(s0, ws.take(j)), ws[j]).1.starts_execution(),
    ensures
        exists|k: int| i < k < j && (#[trigger] ws[k]).releases(),
{
    if exists|k: int| i < k < j && (#[trigger] ws[k]).releases() {
    } else {
        assert(forall|k: int| i < k < j ==> !(#[trigger] ws[k]).releases());
        let si = run_wakes(s0, ws.take(i));
        let si1 = step_spec(si, ws[i]).0;
        assert(si1.permit_held);
        lemma_run_wakes_snoc(s0, ws, i);
        assert(run_wakes(s0, ws.take(i + 1)) == si1);
        let mid = ws.take(j).skip(i + 1);
        assert(forall|k: int| 0 <= k < mid.len() ==> !(#[trigger] mid[k]).releases()) by {
            assert(forall|k: int|
                0 <= k < mid.len() ==> mid[k] == ws[k + i + 1] && i < k + i + 1 < j);
        }
        lemma_run_wakes_split(s0, ws.take(j), i + 1);
        assert(ws.take(j).take(i + 1) =~= ws.take(i + 1));
        lemma_held_persists(si1, mid);
        assert(run_wakes(s0, ws.take(j)).permit_held);
        assert(!step_spec(run_wakes(s0, ws.take(j)), ws[j]).1.starts_execution());
    }
}

} // verus!
