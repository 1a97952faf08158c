//! Pausing: while paused, the pool refuses swaps and deposits (withdrawals
//! stay open).
use crate::errors::StablePoolError;
use crate::StablePool;
use vstd::prelude::*;

verus! {

/// The pause switch.
pub trait PausableModule {
    /// Pauses the pool.
    fn do_pause(&mut self);

    /// Resumes the pool.
    fn do_unpause(&mut self);

    /// Refuses while the pool is paused.
    fn require_not_paused(&self) -> Result<(), StablePoolError>;

    /// Whether the pool is paused.
    fn is_paused(&self) -> bool;
}

impl PausableModule for StablePool {
    fn do_pause(&mut self)
        ensures
            final(self)@ == old(self)@.with_paused(true),
    {
        proof {
            use_type_invariant(&*self);
        }
        self.paused = true;
    }

    fn do_unpause(&mut self)
        ensures
            final(self)@ == old(self)@.with_paused(false),
    {
        proof {
            use_type_invariant(&*self);
        }
        self.paused = false;
    }

    fn require_not_paused(&self) -> (r: Result<(), StablePoolError>)
        ensures
            r is Ok <==> !self@.paused,
            r is Err ==> r == Err::<(), StablePoolError>(StablePoolError::Paused),
    {
        if self.paused {
            Err(StablePoolError::Paused)
        } else {
            Ok(())
        }
    }

    fn is_paused(&self) -> (r: bool)
        ensures
            r == self@.paused,
    {
        self.paused
    }
}

} // verus!
