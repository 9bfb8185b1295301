//! Transitions: pairs of functions that move a macrostate one step forward
//! or backward in time, given the die rolled for that step.
use vstd::prelude::*;

verus! {

/// A rule for one step of the macrostate. Its backward function undoes its
/// forward function for every macrostate and every die value.
///
/// Macrostates are `i32` and the arithmetic wraps, so that the backward
/// function is an exact inverse on the whole domain.
#[derive(Clone, Copy, Debug, PartialEq, Eq, Structural)]
pub enum Transition {
    /// Leaves the macrostate unchanged, ignoring the die.
    Idle,
    /// Adds the die to the macrostate going forward, subtracts it going back.
    RandomStep,
    /// Adds a fixed value, captured when the transition is made, going
    /// forward, and subtracts it going back; the die is ignored.
    Record(i32),
}

impl Transition {
    /// The macrostate after a forward step from `m` with die `d`.
    pub open spec fn forward_spec(self, m: i32, d: i32) -> i32 {
        match self {
            Transition::Idle => m,
            Transition::RandomStep => m.wrapping_add(d),
            Transition::Record(v) => m.wrapping_add(v),
        }
    }

    /// The macrostate after a backward step from `m` with die `d`.
    pub open spec fn backward_spec(self, m: i32, d: i32) -> i32 {
        match self {
            Transition::Idle => m,
            Transition::RandomStep => m.wrapping_sub(d),
            Transition::Record(v) => m.wrapping_sub(v),
        }
    }

    /// The transition that freezes the macrostate.
    pub fn idle() -> (r: Transition)
        ensures
            r == Transition::Idle,
    {
        Transition::Idle
    }

    /// The additive random walk: the die is added going forward.
    pub fn random_step() -> (r: Transition)
        ensures
            r == Transition::RandomStep,
    {
        Transition::RandomStep
    }

    /// The transition that adds `val` going forward, whatever the die.
    pub fn record(val: i32) -> (r: Transition)
        ensures
            r == Transition::Record(val),
    {
        Transition::Record(val)
    }

    /// Applies the forward function to macrostate `m` and die `d`.
    pub fn evolve_forward(&self, m: i32, d: i32) -> (r: i32)
        ensures
            r == self.forward_spec(m, d),
    {
        match self {
            Transition::Idle => m,
            Transition::RandomStep => m.wrapping_add(d),
            Transition::Record(v) => m.wrapping_add(*v),
        }
    }

    /// Applies the backward function to macrostate `m` and die `d`.
    pub fn evolve_backward(&self, m: i32, d: i32) -> (r: i32)
        ensures
            r == self.backward_spec(m, d),
    {
        match self {
            Transition::Idle => m,
            Transition::RandomStep => m.wrapping_sub(d),
            Transition::Record(v) => m.wrapping_sub(*v),
        }
    }
}

} // verus!
