//! The cost meter consulted during recursive resolution.
//!
//! Exhaustion of the meter is the sole mechanism that bounds what would
//! otherwise be unbounded work over attacker-controlled generic nesting or
//! mutually recursive struct graphs: every recursive resolution step charges
//! the meter first and aborts the whole chain when the budget is gone.

use vstd::prelude::*;
use crate::errors::{StatusCode, VMResult, VMStatus};

verus! {

/// A cooperative, caller-driven work budget.
#[derive(Clone, Copy, PartialEq, Eq, Structural, Debug)]
pub struct GasMeter {
    pub remaining: u64,
}

impl GasMeter {
    pub fn new(budget: u64) -> (r: GasMeter)
        ensures
            r.remaining == budget,
    {
        GasMeter { remaining: budget }
    }

    /// Charges `amount` units.  Succeeds exactly when the remaining budget
    /// covers the charge; on exhaustion the meter is left untouched and the
    /// caller must abort its resolution chain.
    pub fn charge(&mut self, amount: u64) -> (r: VMResult<()>)
        ensures
            old(self).remaining >= amount ==> r is Ok
                && final(self).remaining == old(self).remaining - amount,
            old(self).remaining < amount ==> (r matches Err(e)
                && e.major == StatusCode::OutOfGas
                && *final(self) == *old(self)),
    {
        if self.remaining >= amount {
            self.remaining = self.remaining - amount;
            Ok(())
        } else {
            Err(VMStatus::new(StatusCode::OutOfGas))
        }
    }
}

} // verus!
