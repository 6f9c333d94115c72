//! The concurrency budget: a counting semaphore of fixed size.

use vstd::prelude::*;

verus! {

/// A fixed number of permits, each held by at most one pipeline at a time.
///
/// Every change goes through an exclusive borrow, so a permit is acquired or
/// released in one step.
#[derive(Debug, PartialEq, Eq)]
pub struct ConcurrencyBudget {
    limit: usize,
    in_use: usize,
}

/// The mathematical content of a [`ConcurrencyBudget`].
pub struct BudgetView {
    /// The number of permits.
    pub limit: nat,
    /// The number of permits that are held.
    pub in_use: nat,
}

impl View for ConcurrencyBudget {
    type V = BudgetView;

    closed spec fn view(&self) -> BudgetView {
        BudgetView { limit: self.limit as nat, in_use: self.in_use as nat }
    }
}

impl ConcurrencyBudget {
    /// There is at least one permit, and no more permits are held than
    /// there are.
    pub open spec fn wf(&self) -> bool {
        1 <= self@.limit && self@.in_use <= self@.limit
    }

    /// A budget of `limit` permits, none of them held.
    pub fn new(limit: usize) -> (budget: ConcurrencyBudget)
        requires
            limit >= 1,
        ensures
            budget.wf(),
            budget@ == (BudgetView { limit: limit as nat, in_use: 0 }),
    {
        ConcurrencyBudget { limit, in_use: 0 }
    }

    /// The number of permits.
    pub fn limit(&self) -> (limit: usize)
        ensures
            limit == self@.limit,
    {
        self.limit
    }

    /// The number of permits that are held.
    pub fn in_use(&self) -> (in_use: usize)
        ensures
            in_use == self@.in_use,
    {
        self.in_use
    }

    /// The number of permits that are free.
    pub fn available(&self) -> (available: usize)
        requires
            self.wf(),
        ensures
            available == self@.limit - self@.in_use,
    {
        self.limit - self.in_use
    }

    /// Takes a permit if one is free, and tells whether it did.
    pub fn try_acquire(&mut self) -> (acquired: bool)
        requires
            old(self).wf(),
        ensures
            final(self).wf(),
            acquired == (old(self)@.in_use < old(self)@.limit),
            final(self)@.limit == old(self)@.limit,
            final(self)@.in_use == old(self)@.in_use + if acquired {
                1nat
            } else {
                0nat
            },
    {
        if self.in_use < self.limit {
            self.in_use = self.in_use + 1;
            true
        } else {
            false
        }
    }

    /// Gives a permit back if one is held, and tells whether it did. The
    /// number of held permits never falls below zero.
    pub fn release(&mut self) -> (released: bool)
        requires
            old(self).wf(),
        ensures
            final(self).wf(),
            released == (old(self)@.in_use > 0),
            final(self)@.limit == old(self)@.limit,
            final(self)@.in_use == old(self)@.in_use - if released {
                1nat
            } else {
                0nat
            },
    {
        if self.in_use > 0 {
            self.in_use = self.in_use - 1;
            true
        } else {
            false
        }
    }
}

} // verus!
