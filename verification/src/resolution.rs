//! The state of a walk from symbol to symbol.
use vstd::prelude::*;

use crate::ast::SymbolId;

verus! {

/// A symbol hop budget for one walk. The cycle guard alone does not bound the work: a crafted
/// chain like `type A1 = A0 | A0; type A2 = A1 | A1; ...` doubles it at each step.
pub const MAX_RESOLVE_STEPS: u32 = 64;

/// What is left of a budget of `steps` hops after `used` of them.
pub open spec fn left(steps: nat, used: nat) -> nat {
    if used <= steps {
        (steps - used) as nat
    } else {
        0
    }
}

/// Whether a walk may not follow a symbol: the budget is spent, or the symbol is on the path.
pub open spec fn is_blocked(visited: Seq<SymbolId>, steps: nat, symbol_id: SymbolId) -> bool {
    steps == 0 || visited.contains(symbol_id)
}

#[derive(Debug)]
pub struct Resolution {
    /// The symbols on the current path, to stop a symbol that refers to itself.
    pub visited: Vec<SymbolId>,
    /// The hops that are left.
    pub steps: u32,
}

/// Whether a walk is back where it was at `before`, after `used` more hops.
pub open spec fn spent(before: Resolution, after: Resolution, used: nat) -> bool {
    &&& after.visited@ == before.visited@
    &&& after.steps + used == before.steps
}

impl Resolution {
    pub fn new() -> (state: Resolution)
        ensures
            state.visited@ == Seq::<SymbolId>::empty(),
            state.steps == MAX_RESOLVE_STEPS,
    {
        Resolution { visited: Vec::new(), steps: MAX_RESOLVE_STEPS }
    }

    pub fn is_visited(&self, symbol_id: SymbolId) -> (visited: bool)
        ensures
            visited == self.visited@.contains(symbol_id),
    {
        let mut i: usize = 0;
        while i < self.visited.len()
            invariant
                i <= self.visited@.len(),
                forall|j: int| 0 <= j < i ==> self.visited@[j] != symbol_id,
            decreases self.visited@.len() - i,
        {
            if self.visited[i] == symbol_id {
                return true;
            }
            i += 1;
        }
        false
    }

    /// Steps to a symbol, unless the budget is spent or the symbol is on the path.
    pub fn enter(&mut self, symbol_id: SymbolId) -> (entered: bool)
        ensures
            entered == !is_blocked(old(self).visited@, old(self).steps as nat, symbol_id),
            entered ==> final(self).visited@ == old(self).visited@.push(symbol_id),
            entered ==> final(self).steps == old(self).steps - 1,
            old(self).visited@.no_duplicates() ==> final(self).visited@.no_duplicates(),
            !entered ==> *final(self) == *old(self),
    {
        if self.steps == 0 || self.is_visited(symbol_id) {
            return false;
        }
        self.steps = self.steps - 1;
        self.visited.push(symbol_id);
        true
    }

    /// Steps back from the symbol that was entered last.
    pub fn leave(&mut self)
        requires
            old(self).visited@.len() > 0,
        ensures
            final(self).visited@ == old(self).visited@.drop_last(),
            final(self).steps == old(self).steps,
    {
        let _ = self.visited.pop();
    }
}

} // verus!
