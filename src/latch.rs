use vstd::prelude::*;

verus! {

/// A one-way boolean flag: it moves from unset to set once and never back.
///
/// `flip` reports whether this very call performed the transition, so that of
/// any number of callers exactly one sees itself as the winner.
#[derive(Debug)]
pub struct Latch {
    set: bool,
}

impl View for Latch {
    type V = bool;

    closed spec fn view(&self) -> bool {
        self.set
    }
}

/// What one flip does to a latch in state `set`: whether the call wins, and
/// the state it leaves.
pub open spec fn flip_result(set: bool) -> (bool, bool) {
    (!set, true)
}

impl Latch {
    /// A latch that has not been set.
    pub fn new() -> (r: Latch)
        ensures
            !r@,
    {
        Latch { set: false }
    }

    /// Whether the latch has been set.
    pub fn is_set(&self) -> (r: bool)
        ensures
            r == self@,
    {
        self.set
    }

    /// Sets the latch; returns `true` only when it was unset before this call.
    pub fn flip(&mut self) -> (won: bool)
        ensures
            (won, final(self)@) == flip_result(old(self)@),
    {
        let won = !self.set;
        self.set = true;
        won
    }
}

/// Two flips of one latch, one after the other (as any two racing callers are
/// ordered by the latch): at most one of them wins, exactly one when the latch
/// started unset, and the latch is set after each of them.
pub proof fn lemma_single_winner(start: bool)
    ensures
        ({
            let (first, after_first) = flip_result(start);
            let (second, after_second) = flip_result(after_first);
            &&& !(first && second)
            &&& !start ==> (first && !second)
            &&& start ==> (!first && !second)
            &&& after_first && after_second
        }),
{
}

} // verus!
