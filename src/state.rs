//! The reversible state: a macrostate, a time index and two caches of dice
//! that turn the die source into a tape that can be played both ways.
use crate::die::{die_value, DeterministicDie};
use crate::text::{decimal, int_text};
use crate::transition::Transition;
use rand::Rng;
use vstd::prelude::*;

verus! {

/// What a state is, mathematically.
pub struct StateView {
    /// The current time index.
    pub t: int,
    /// The current macrostate.
    pub macrostate: i32,
    /// Dice consumed going forward, oldest first: `past[i]` is the die of
    /// time index `t - past.len() + i`.
    pub past: Seq<i32>,
    /// Dice consumed going backward, soonest last: `future[j]` is the die of
    /// time index `t + future.len() - 1 - j`.
    pub future: Seq<i32>,
    /// The seed of the state's die.
    pub seed: u64,
}

impl StateView {
    /// The time index that `past[i]` belongs to.
    pub open spec fn past_index(self, i: int) -> int {
        self.t - self.past.len() + i
    }

    /// The time index that `future[j]` belongs to.
    pub open spec fn future_index(self, j: int) -> int {
        self.t + self.future.len() - 1 - j
    }

    /// Every cached die is the die source's value at its own time index.
    pub open spec fn wf(self) -> bool {
        &&& forall|i: int|
            0 <= i < self.past.len() ==> #[trigger] self.past[i] == die_value(
                self.seed,
                self.past_index(i) as i32,
            )
        &&& forall|j: int|
            0 <= j < self.future.len() ==> #[trigger] self.future[j] == die_value(
                self.seed,
                self.future_index(j) as i32,
            )
    }

    /// The die that a forward step uses: the cached one if there is one,
    /// else a fresh roll at the current time index.
    pub open spec fn forward_die(self) -> i32 {
        if self.future.len() > 0 {
            self.future.last()
        } else {
            die_value(self.seed, self.t as i32)
        }
    }

    /// The die that a backward step uses: the cached one if there is one,
    /// else a fresh roll at the time index stepped back to.
    pub open spec fn backward_die(self) -> i32 {
        if self.past.len() > 0 {
            self.past.last()
        } else {
            die_value(self.seed, (self.t - 1) as i32)
        }
    }

    /// The state after one forward step with `tr`.
    pub open spec fn forward(self, tr: Transition) -> StateView {
        let d = self.forward_die();
        StateView {
            t: self.t + 1,
            macrostate: tr.forward_spec(self.macrostate, d),
            past: self.past.push(d),
            future: if self.future.len() > 0 {
                self.future.drop_last()
            } else {
                self.future
            },
            seed: self.seed,
        }
    }

    /// The state after one backward step with `tr`.
    pub open spec fn backward(self, tr: Transition) -> StateView {
        let d = self.backward_die();
        StateView {
            t: self.t - 1,
            macrostate: tr.backward_spec(self.macrostate, d),
            past: if self.past.len() > 0 {
                self.past.drop_last()
            } else {
                self.past
            },
            future: self.future.push(d),
            seed: self.seed,
        }
    }
}

/// A forward step keeps every cached die equal to the die source's value at
/// its time index.
pub proof fn lemma_forward_wf(v: StateView, tr: Transition)
    requires
        v.wf(),
    ensures
        v.forward(tr).wf(),
{
    let w = v.forward(tr);
    assert forall|i: int| 0 <= i < w.past.len() implies #[trigger] w.past[i] == die_value(
        w.seed,
        w.past_index(i) as i32,
    ) by {
        if i < v.past.len() {
            assert(w.past[i] == v.past[i]);
        } else {
            assert(w.past_index(i) == v.t);
            if v.future.len() > 0 {
                let k = v.future.len() - 1;
                assert(v.future_index(k) == v.t);
                assert(v.future[k] == die_value(v.seed, v.future_index(k) as i32));
            }
        }
    }
    assert forall|j: int| 0 <= j < w.future.len() implies #[trigger] w.future[j] == die_value(
        w.seed,
        w.future_index(j) as i32,
    ) by {
        assert(w.future[j] == v.future[j]);
    }
}

/// A backward step keeps every cached die equal to the die source's value at
/// its time index.
pub proof fn lemma_backward_wf(v: StateView, tr: Transition)
    requires
        v.wf(),
    ensures
        v.backward(tr).wf(),
{
    let w = v.backward(tr);
    assert forall|i: int| 0 <= i < w.past.len() implies #[trigger] w.past[i] == die_value(
        w.seed,
        w.past_index(i) as i32,
    ) by {
        assert(w.past[i] == v.past[i]);
    }
    assert forall|j: int| 0 <= j < w.future.len() implies #[trigger] w.future[j] == die_value(
        w.seed,
        w.future_index(j) as i32,
    ) by {
        if j < v.future.len() {
            assert(w.future[j] == v.future[j]);
        } else {
            assert(w.future_index(j) == w.t);
            if v.past.len() > 0 {
                let k = v.past.len() - 1;
                assert(v.past_index(k) == w.t);
                assert(v.past[k] == die_value(v.seed, v.past_index(k) as i32));
            }
        }
    }
}

/// The text of the past history: each die after a space, oldest first.
pub open spec fn past_text(past: Seq<i32>) -> Seq<char>
    decreases past.len(),
{
    if past.len() == 0 {
        Seq::empty()
    } else {
        past_text(past.drop_last()) + " "@ + decimal(past.last() as int)
    }
}

/// The text of the future history: each die before a space, soonest first.
pub open spec fn future_text(future: Seq<i32>) -> Seq<char>
    decreases future.len(),
{
    if future.len() == 0 {
        Seq::empty()
    } else {
        future_text(future.skip(1)) + decimal(future[0] as int) + " "@
    }
}

/// The text of a state: its time index, then the whole known tape of dice,
/// with the macrostate in the middle where the present stands.
pub open spec fn state_text(v: StateView) -> Seq<char> {
    "State at t="@ + decimal(v.t) + ": ..."@ + past_text(v.past) + " ("@ + decimal(
        v.macrostate as int,
    ) + ") "@ + future_text(v.future) + "..."@
}

/// A macrostate that evolves in steps of time, driven by a deterministic die,
/// and that can be stepped back exactly.
pub struct State {
    t: i32,
    macrostate: i32,
    future_dice: Vec<i32>,
    past_dice: Vec<i32>,
    die: DeterministicDie,
}

impl View for State {
    type V = StateView;

    closed spec fn view(&self) -> StateView {
        StateView {
            t: self.t as int,
            macrostate: self.macrostate,
            past: self.past_dice@,
            future: self.future_dice@,
            seed: self.die.seed,
        }
    }
}

/// Relies on `rand::rng` and `Rng::random`: a `u64` drawn from the thread's
/// generator. Nothing is known of its value.
#[verifier::external_body]
fn fresh_seed() -> (r: u64) {
    rand::rng().random()
}

impl State {
    /// The state's invariant.
    pub open spec fn wf(&self) -> bool {
        self@.wf()
    }

    /// The die with the given seed.
    pub fn uniform_rolls(microstate_seed: u64) -> (r: DeterministicDie)
        ensures
            r.seed == microstate_seed,
    {
        DeterministicDie { seed: microstate_seed }
    }

    /// A state at time index 0 with the given macrostate, empty histories and
    /// a die with the given seed.
    pub fn from_seed(macrostate: i32, microstate_seed: u64) -> (r: State)
        ensures
            r.wf(),
            r@ == (StateView {
                t: 0,
                macrostate,
                past: Seq::empty(),
                future: Seq::empty(),
                seed: microstate_seed,
            }),
    {
        let r = State {
            t: 0,
            macrostate,
            future_dice: Vec::new(),
            past_dice: Vec::new(),
            die: Self::uniform_rolls(microstate_seed),
        };
        assert(r@.past =~= Seq::empty());
        r
    }

    /// A state at time index 0 with the given macrostate, empty histories and
    /// a freshly drawn seed.
    pub fn new(macrostate: i32) -> (r: State)
        ensures
            r.wf(),
            r@.t == 0,
            r@.macrostate == macrostate,
            r@.past == Seq::<i32>::empty(),
            r@.future == Seq::<i32>::empty(),
    {
        let microstate_seed = fresh_seed();
        Self::from_seed(macrostate, microstate_seed)
    }

    /// A state with the time index and macrostate of `old_state`, empty
    /// histories and a die with the given seed.
    pub fn peturbed_from_seed(old_state: &State, microstate_seed: u64) -> (r: State)
        ensures
            r.wf(),
            r@ == (StateView {
                t: old_state@.t,
                macrostate: old_state@.macrostate,
                past: Seq::empty(),
                future: Seq::empty(),
                seed: microstate_seed,
            }),
    {
        State {
            t: old_state.t,
            macrostate: old_state.macrostate,
            future_dice: Vec::new(),
            past_dice: Vec::new(),
            die: Self::uniform_rolls(microstate_seed),
        }
    }

    /// A state with the time index and macrostate of `old_state`, empty
    /// histories and a freshly drawn seed: an independent continuation.
    pub fn peturbed(old_state: &State) -> (r: State)
        ensures
            r.wf(),
            r@.t == old_state@.t,
            r@.macrostate == old_state@.macrostate,
            r@.past == Seq::<i32>::empty(),
            r@.future == Seq::<i32>::empty(),
    {
        let microstate_seed = fresh_seed();
        Self::peturbed_from_seed(old_state, microstate_seed)
    }

    /// The current time index.
    pub fn time_index(&self) -> (r: i32)
        ensures
            r == self@.t,
    {
        self.t
    }

    /// The current macrostate.
    pub fn macrostate(&self) -> (r: i32)
        ensures
            r == self@.macrostate,
    {
        self.macrostate
    }

    /// The dice consumed going forward, oldest first.
    pub fn past_dice(&self) -> (r: &Vec<i32>)
        ensures
            r@ == self@.past,
    {
        &self.past_dice
    }

    /// The dice consumed going backward, soonest last.
    pub fn future_dice(&self) -> (r: &Vec<i32>)
        ensures
            r@ == self@.future,
    {
        &self.future_dice
    }

    /// The state's die.
    pub fn die(&self) -> (r: DeterministicDie)
        ensures
            r.seed == self@.seed,
    {
        self.die
    }

    /// The text of the state, as `state_text` describes it.
    pub fn render(&self) -> (r: String)
        ensures
            r@ == state_text(self@),
    {
        let mut s = String::new();
        s.append("State at t=");
        let t_text = int_text(self.t);
        s.append(t_text.as_str());
        s.append(": ...");
        let ghost head = s@;
        let n = self.past_dice.len();
        let mut i: usize = 0;
        while i < n
            invariant
                0 <= i <= n,
                n == self.past_dice@.len(),
                s@ == head + past_text(self.past_dice@.take(i as int)),
            decreases n - i,
        {
            s.append(" ");
            let d_text = int_text(self.past_dice[i]);
            s.append(d_text.as_str());
            assert(self.past_dice@.take(i + 1).drop_last() =~= self.past_dice@.take(i as int));
            i = i + 1;
        }
        assert(self.past_dice@.take(n as int) =~= self.past_dice@);
        s.append(" (");
        let m_text = int_text(self.macrostate);
        s.append(m_text.as_str());
        s.append(") ");
        let ghost mid = s@;
        let m = self.future_dice.len();
        let mut j: usize = m;
        while j > 0
            invariant
                0 <= j <= m,
                m == self.future_dice@.len(),
                s@ == mid + future_text(self.future_dice@.subrange(j as int, m as int)),
            decreases j,
        {
            j = j - 1;
            let d_text = int_text(self.future_dice[j]);
            s.append(d_text.as_str());
            s.append(" ");
            assert(self.future_dice@.subrange(j as int, m as int).skip(1) =~= self.future_dice@.subrange(
                j + 1,
                m as int,
            ));
        }
        assert(self.future_dice@.subrange(0, m as int) =~= self.future_dice@);
        s.append("...");
        s
    }

    /// One step forward: replays the die cached by an earlier backward step,
    /// or rolls the die at the current time index, then applies the forward
    /// function of `transition` and advances the time index.
    pub fn step_forward(&mut self, transition: &Transition)
        requires
            old(self).wf(),
            old(self)@.t < i32::MAX,
        ensures
            final(self).wf(),
            final(self)@ == old(self)@.forward(*transition),
    {
        let die = match self.future_dice.pop() {
            Some(d) => d,
            None => self.die.roll(self.t),
        };
        self.macrostate = transition.evolve_forward(self.macrostate, die);
        self.past_dice.push(die);
        self.t = self.t + 1;
        proof {
            lemma_forward_wf(old(self)@, *transition);
        }
    }

    /// One step backward: moves the time index back, then replays the die
    /// cached by an earlier forward step, or rolls the die at the new time
    /// index, and applies the backward function of `transition`.
    pub fn step_backward(&mut self, transition: &Transition)
        requires
            old(self).wf(),
            old(self)@.t > i32::MIN,
        ensures
            final(self).wf(),
            final(self)@ == old(self)@.backward(*transition),
    {
        self.t = self.t - 1;
        let die = match self.past_dice.pop() {
            Some(d) => d,
            None => self.die.roll(self.t),
        };
        self.macrostate = transition.evolve_backward(self.macrostate, die);
        self.future_dice.push(die);
        proof {
            lemma_backward_wf(old(self)@, *transition);
        }
    }
}

} // verus!
