//! Laws of the stepping engine: transitions invert, round trips restore the
//! state, and the two histories partition the time indices crossed.
use crate::state::{lemma_backward_wf, lemma_forward_wf, StateView};
use crate::transition::Transition;
use vstd::prelude::*;
use vstd::set_lib::{lemma_int_range, set_int_range};

verus! {

/// The direction of one step.
#[derive(Clone, Copy, Debug, PartialEq, Eq, Structural)]
pub enum Direction {
    Forward,
    Backward,
}

/// The state after one step in direction `dir` with transition `tr`.
pub open spec fn step(v: StateView, dir: Direction, tr: Transition) -> StateView {
    match dir {
        Direction::Forward => v.forward(tr),
        Direction::Backward => v.backward(tr),
    }
}

/// The time index that one step from `v` in direction `dir` crosses.
pub open spec fn crossed_index(v: StateView, dir: Direction) -> int {
    match dir {
        Direction::Forward => v.t,
        Direction::Backward => v.t - 1,
    }
}

/// The state after the steps of `moves`, first one first.
pub open spec fn walk(v: StateView, moves: Seq<(Direction, Transition)>) -> StateView
    decreases moves.len(),
{
    if moves.len() == 0 {
        v
    } else {
        let w = walk(v, moves.drop_last());
        step(w, moves.last().0, moves.last().1)
    }
}

/// The time indices crossed by the steps of `moves` from `v`.
pub open spec fn crossed(v: StateView, moves: Seq<(Direction, Transition)>) -> Set<int>
    decreases moves.len(),
{
    if moves.len() == 0 {
        Set::empty()
    } else {
        let w = walk(v, moves.drop_last());
        crossed(v, moves.drop_last()).insert(crossed_index(w, moves.last().0))
    }
}

/// The time indices whose dice are in the past history.
pub open spec fn past_indices(v: StateView) -> Set<int> {
    set_int_range(v.t - v.past.len(), v.t)
}

/// The time indices whose dice are in the future history.
pub open spec fn future_indices(v: StateView) -> Set<int> {
    set_int_range(v.t, v.t + v.future.len())
}

/// The state after a forward step with each of `ts`, first one first.
pub open spec fn run_forward(v: StateView, ts: Seq<Transition>) -> StateView
    decreases ts.len(),
{
    if ts.len() == 0 {
        v
    } else {
        run_forward(v, ts.drop_last()).forward(ts.last())
    }
}

/// The state after a backward step with each of `ts`, last one first: the
/// steps of `run_forward(_, ts)` taken back in reverse order.
pub open spec fn run_backward(v: StateView, ts: Seq<Transition>) -> StateView
    decreases ts.len(),
{
    if ts.len() == 0 {
        v
    } else {
        run_backward(v.backward(ts.last()), ts.drop_last())
    }
}

/// Each transition's backward function undoes its forward function given the
/// same die, and the other way round, for every macrostate and every die:
/// so for `idle`, for `random_step` and for `record(v)` whatever `v`.
pub proof fn lemma_transition_inverse(tr: Transition, m: i32, d: i32)
    ensures
        tr.backward_spec(tr.forward_spec(m, d), d) == m,
        tr.forward_spec(tr.backward_spec(m, d), d) == m,
{
}

/// A forward step followed by a backward step with the same transition
/// restores the time index, the macrostate and the past history; when the
/// forward step replayed a cached die, it restores the whole state.
pub proof fn lemma_step_round_trip(v: StateView, tr: Transition)
    ensures
        v.forward(tr).backward(tr).t == v.t,
        v.forward(tr).backward(tr).macrostate == v.macrostate,
        v.forward(tr).backward(tr).past == v.past,
        v.forward(tr).backward(tr).seed == v.seed,
        v.future.len() > 0 ==> v.forward(tr).backward(tr) == v,
{
    let w = v.forward(tr);
    let x = w.backward(tr);
    lemma_transition_inverse(tr, v.macrostate, v.forward_die());
    assert(x.past =~= v.past);
    if v.future.len() > 0 {
        assert(x.future =~= v.future);
    }
}

/// A run of backward steps reads no future history: from states that agree
/// but for it, it reaches states that agree but for it, and it only appends
/// to it.
pub proof fn lemma_backward_ignores_future(a: StateView, b: StateView, ts: Seq<Transition>)
    requires
        a.t == b.t,
        a.macrostate == b.macrostate,
        a.past == b.past,
        a.seed == b.seed,
    ensures
        run_backward(a, ts).t == run_backward(b, ts).t == a.t - ts.len(),
        run_backward(a, ts).macrostate == run_backward(b, ts).macrostate,
        run_backward(a, ts).past == run_backward(b, ts).past,
        run_backward(a, ts).seed == run_backward(b, ts).seed == a.seed,
        run_backward(a, ts).future.len() == a.future.len() + ts.len(),
        run_backward(a, ts).future.take(a.future.len() as int) == a.future,
    decreases ts.len(),
{
    if ts.len() > 0 {
        let l = ts.last();
        let ts1 = ts.drop_last();
        lemma_backward_ignores_future(a.backward(l), b.backward(l), ts1);
        let r = run_backward(a, ts);
        assert(r.future.take(a.future.len() as int) =~= a.backward(l).future.take(
            a.future.len() as int,
        ));
        assert(r.future.take(a.future.len() as int) =~= a.future);
    }
}

/// Length of the future history after a run of forward steps.
pub proof fn lemma_run_forward_future_len(v: StateView, ts: Seq<Transition>)
    ensures
        run_forward(v, ts).t == v.t + ts.len(),
        run_forward(v, ts).seed == v.seed,
        run_forward(v, ts).future.len() == if ts.len() <= v.future.len() {
            v.future.len() - ts.len()
        } else {
            0
        },
    decreases ts.len(),
{
    if ts.len() > 0 {
        lemma_run_forward_future_len(v, ts.drop_last());
    }
}

/// Runs of steps keep every cached die equal to the die source's value at its
/// time index.
pub proof fn lemma_runs_wf(v: StateView, ts: Seq<Transition>)
    requires
        v.wf(),
    ensures
        run_forward(v, ts).wf(),
        run_backward(v, ts).wf(),
    decreases ts.len(),
{
    if ts.len() > 0 {
        lemma_runs_wf(v, ts.drop_last());
        lemma_forward_wf(run_forward(v, ts.drop_last()), ts.last());
        lemma_backward_wf(v, ts.last());
        lemma_runs_wf(v.backward(ts.last()), ts.drop_last());
    }
}

/// Stepping forward with each of `ts` and then backward with each of `ts` in
/// reverse order restores the time index, the macrostate and the past
/// history, for any number of steps. The future history keeps what it held,
/// at its far end, and also holds the dice first rolled on the way forward.
pub proof fn lemma_round_trip(v: StateView, ts: Seq<Transition>)
    requires
        v.wf(),
    ensures
        run_backward(run_forward(v, ts), ts).wf(),
        run_backward(run_forward(v, ts), ts).t == v.t,
        run_backward(run_forward(v, ts), ts).macrostate == v.macrostate,
        run_backward(run_forward(v, ts), ts).past == v.past,
        run_backward(run_forward(v, ts), ts).seed == v.seed,
        run_backward(run_forward(v, ts), ts).future.len() == if ts.len() <= v.future.len() {
            v.future.len() as int
        } else {
            ts.len() as int
        },
        run_backward(run_forward(v, ts), ts).future.skip(
            run_backward(run_forward(v, ts), ts).future.len() - v.future.len(),
        ) == v.future,
    decreases ts.len(),
{
    let r = run_backward(run_forward(v, ts), ts);
    lemma_runs_wf(v, ts);
    lemma_runs_wf(run_forward(v, ts), ts);
    lemma_run_forward_future_len(v, ts);
    lemma_backward_ignores_future(run_forward(v, ts), run_forward(v, ts), ts);
    if ts.len() > 0 {
        let l = ts.last();
        let ts1 = ts.drop_last();
        let w = run_forward(v, ts1);
        lemma_round_trip(v, ts1);
        lemma_step_round_trip(w, l);
        lemma_backward_ignores_future(w.forward(l).backward(l), w, ts1);
    }
    let off = r.future.len() - v.future.len();
    assert forall|j: int| 0 <= j < v.future.len() implies #[trigger] r.future.skip(off)[j]
        == v.future[j] by {
        assert(r.future.skip(off)[j] == r.future[off + j]);
        assert(r.future_index(off + j) == v.future_index(j));
    }
    assert(r.future.skip(off) =~= v.future);
}

/// Stepping forward with each of `ts` and then backward with each of `ts` in
/// reverse order restores the whole state, both histories included, when
/// every forward step replays a die cached by an earlier backward step.
pub proof fn lemma_round_trip_replay(v: StateView, ts: Seq<Transition>)
    requires
        ts.len() <= v.future.len(),
    ensures
        run_backward(run_forward(v, ts), ts) == v,
    decreases ts.len(),
{
    if ts.len() > 0 {
        let l = ts.last();
        let ts1 = ts.drop_last();
        let w = run_forward(v, ts1);
        lemma_run_forward_future_len(v, ts1);
        lemma_step_round_trip(w, l);
        lemma_round_trip_replay(v, ts1);
    }
}

/// After any steps from a newly made state, the dice held in the two
/// histories belong to distinct time indices, and those indices are exactly
/// the time indices crossed since then: as many dice as indices crossed.
pub proof fn lemma_history_exclusive(v: StateView, moves: Seq<(Direction, Transition)>)
    requires
        v.past.len() == 0,
        v.future.len() == 0,
    ensures
        past_indices(walk(v, moves)).disjoint(future_indices(walk(v, moves))),
        past_indices(walk(v, moves)) + future_indices(walk(v, moves)) == crossed(v, moves),
        crossed(v, moves).finite(),
        walk(v, moves).past.len() + walk(v, moves).future.len() == crossed(v, moves).len(),
{
    lemma_crossed_range(v, moves);
    let w = walk(v, moves);
    let lo = w.t - w.past.len();
    let hi = w.t + w.future.len();
    assert(past_indices(w) + future_indices(w) =~= set_int_range(lo, hi));
    lemma_int_range(lo, hi);
}

/// The time indices crossed from a newly made state form the range that
/// the two histories cover.
proof fn lemma_crossed_range(v: StateView, moves: Seq<(Direction, Transition)>)
    requires
        v.past.len() == 0,
        v.future.len() == 0,
    ensures
        crossed(v, moves) == set_int_range(
            walk(v, moves).t - walk(v, moves).past.len(),
            walk(v, moves).t + walk(v, moves).future.len(),
        ),
    decreases moves.len(),
{
    let w = walk(v, moves);
    if moves.len() == 0 {
        assert(crossed(v, moves) =~= set_int_range(w.t - w.past.len(), w.t + w.future.len()));
    } else {
        lemma_crossed_range(v, moves.drop_last());
        assert(crossed(v, moves) =~= set_int_range(w.t - w.past.len(), w.t + w.future.len()));
    }
}

} // verus!
