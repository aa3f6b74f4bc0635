//! Taking turns: work that is numbered is let through in the order of its numbers.
use vstd::prelude::*;

verus! {

/// Whose turn it is. Whoever waits holds a number, and goes on when the counter has reached it.
pub struct TurnBasedSync {
    pub current_turn: usize,
}

impl View for TurnBasedSync {
    type V = nat;

    open spec fn view(&self) -> nat {
        self.current_turn as nat
    }
}

impl TurnBasedSync {
    /// The first turn is that of number zero.
    pub fn new() -> (sync: Self)
        ensures
            sync@ == 0,
            sync.current_turn == 0,
    {
        TurnBasedSync { current_turn: 0 }
    }

    /// Whether `my_turn` has come, so that its holder need not wait.
    pub fn is_turn(&self, my_turn: usize) -> (come: bool)
        ensures
            come == (self@ == my_turn),
            come == (self.current_turn == my_turn),
    {
        self.current_turn == my_turn
    }

    /// Lets the next number go on.
    pub fn advance_turn(&mut self)
        requires
            old(self)@ < usize::MAX,
        ensures
            final(self)@ == old(self)@ + 1,
            final(self).current_turn == old(self).current_turn + 1,
    {
        self.current_turn = self.current_turn + 1;
    }
}

} // verus!
