//! The size budget of a run and the ledger that keeps it.

use vstd::prelude::*;

use crate::error::{ContextError, ErrorModel};

verus! {

/// Budget units that one token of the ceiling is worth.
pub const CHARS_PER_TOKEN: u64 = 4;

/// The token ceiling of a run that names none.
pub const DEFAULT_MAX_TOKENS: u64 = 100_000_000;

/// The sum of `sizes`.
pub open spec fn total(sizes: Seq<nat>) -> nat
    decreases sizes.len(),
{
    if sizes.len() == 0 {
        0
    } else {
        total(sizes.drop_last()) + sizes.last()
    }
}

/// A budget as plain values: the ceiling, what is used of it, and the sizes
/// that were committed, oldest first.
pub struct Budget {
    pub max_units: nat,
    pub consumed_units: nat,
    pub committed: Seq<nat>,
}

impl Budget {
    /// A budget of `max_units` with nothing committed.
    pub open spec fn fresh(max_units: nat) -> Budget {
        Budget { max_units, consumed_units: 0, committed: Seq::empty() }
    }

    /// What is consumed is the sum of what was committed, and it is within the
    /// ceiling.
    pub open spec fn wf(self) -> bool {
        &&& self.consumed_units == total(self.committed)
        &&& self.consumed_units <= self.max_units
    }

    /// A block of `size` units still fits.
    pub open spec fn fits(self, size: nat) -> bool {
        self.consumed_units + size <= self.max_units
    }

    /// The budget after a block of `size` units was offered: it is charged
    /// where it fits, and the budget is left alone where it does not.
    pub open spec fn offer(self, size: nat) -> Budget {
        if self.fits(size) {
            Budget {
                consumed_units: self.consumed_units + size,
                committed: self.committed.push(size),
                ..self
            }
        } else {
            self
        }
    }

    /// The budget is used up: nothing of a size above zero fits any more.
    pub open spec fn exhausted(self) -> bool {
        self.consumed_units >= self.max_units
    }
}

/// The budget in units that a ceiling of `max_tokens` tokens gives.
pub open spec fn units_of_tokens(max_tokens: nat) -> nat {
    max_tokens * CHARS_PER_TOKEN as nat
}

/// The tokens that `units` budget units are worth, rounded down.
pub open spec fn tokens_of_units(units: nat) -> nat {
    units / CHARS_PER_TOKEN as nat
}

/// Keeps a [`Budget`]: what is consumed only grows, by sizes that were found
/// to fit, and never past the ceiling.
pub struct BudgetLedger {
    max_units: u64,
    consumed_units: u64,
    committed: Ghost<Seq<nat>>,
}

impl View for BudgetLedger {
    type V = Budget;

    closed spec fn view(&self) -> Budget {
        Budget {
            max_units: self.max_units as nat,
            consumed_units: self.consumed_units as nat,
            committed: self.committed@,
        }
    }
}

impl BudgetLedger {
    #[verifier::type_invariant]
    spec fn kept(self) -> bool {
        self@.wf()
    }

    /// A ledger with nothing consumed of `max_units`.
    pub fn new(max_units: u64) -> (ledger: BudgetLedger)
        ensures
            ledger@ == Budget::fresh(max_units as nat),
    {
        BudgetLedger { max_units, consumed_units: 0, committed: Ghost(Seq::empty()) }
    }

    /// A ledger for a ceiling given in tokens. Fails where the budget in units
    /// is more than a `u64` holds.
    pub fn from_tokens(max_tokens: u64) -> (made: Result<BudgetLedger, ContextError>)
        ensures
            units_of_tokens(max_tokens as nat) <= u64::MAX ==> made is Ok && made->Ok_0@
                == Budget::fresh(units_of_tokens(max_tokens as nat)),
            units_of_tokens(max_tokens as nat) > u64::MAX ==> made is Err && made->Err_0@
                == ErrorModel::InvalidBudgetValue(max_tokens),
    {
        match max_tokens.checked_mul(CHARS_PER_TOKEN) {
            Some(max_units) => Ok(BudgetLedger::new(max_units)),
            None => Err(ContextError::InvalidBudgetValue(max_tokens)),
        }
    }

    /// The ceiling and what is consumed are numbers that a `u64` holds.
    pub proof fn lemma_fits_u64(&self)
        ensures
            self@.max_units <= u64::MAX,
            self@.consumed_units <= u64::MAX,
    {
    }

    /// The ceiling.
    pub fn max_units(&self) -> (units: u64)
        ensures
            units == self@.max_units,
    {
        self.max_units
    }

    /// What has been committed so far. It is within the ceiling.
    pub fn consumed_units(&self) -> (units: u64)
        ensures
            units == self@.consumed_units,
            self@.wf(),
    {
        proof {
            use_type_invariant(self);
        }
        self.consumed_units
    }

    /// What may still be committed.
    pub fn remaining_units(&self) -> (units: u64)
        ensures
            units == self@.max_units - self@.consumed_units,
    {
        proof {
            use_type_invariant(self);
        }
        self.max_units - self.consumed_units
    }

    /// Whether a block of `size` units still fits.
    pub fn fits(&self, size: u64) -> (yes: bool)
        ensures
            yes == self@.fits(size as nat),
    {
        proof {
            use_type_invariant(self);
        }
        size <= self.max_units - self.consumed_units
    }

    /// Commits `size` units if they fit, and says whether they did. A size that
    /// does not fit leaves the ledger as it was.
    pub fn try_commit(&mut self, size: u64) -> (accepted: bool)
        ensures
            accepted == old(self)@.fits(size as nat),
            final(self)@ == old(self)@.offer(size as nat),
            final(self)@.wf(),
    {
        proof {
            use_type_invariant(&*self);
        }
        if size <= self.max_units - self.consumed_units {
            proof {
                assert(self.committed@.push(size as nat).drop_last() =~= self.committed@);
            }
            *self = BudgetLedger {
                max_units: self.max_units,
                consumed_units: self.consumed_units + size,
                committed: Ghost(self.committed@.push(size as nat)),
            };
            true
        } else {
            false
        }
    }

    /// Whether the budget is used up, so that no block can fit any more.
    pub fn is_exhausted(&self) -> (yes: bool)
        ensures
            yes == self@.exhausted(),
    {
        self.consumed_units >= self.max_units
    }
}

/// The tokens that `units` budget units are worth, rounded down.
pub fn estimate_tokens(units: u64) -> (tokens: u64)
    ensures
        tokens == tokens_of_units(units as nat),
{
    units / CHARS_PER_TOKEN
}

/// A budget with nothing committed is well formed.
pub proof fn lemma_fresh_budget(max_units: nat)
    ensures
        Budget::fresh(max_units).wf(),
        !Budget::fresh(max_units).exhausted() <==> max_units > 0,
{
}

/// Offering a block never takes the budget past its ceiling, never changes the
/// ceiling and never lowers what is consumed.
pub proof fn lemma_offer_keeps_budget(budget: Budget, size: nat)
    requires
        budget.wf(),
    ensures
        budget.offer(size).wf(),
        budget.offer(size).max_units == budget.max_units,
        budget.offer(size).consumed_units >= budget.consumed_units,
        budget.committed.is_prefix_of(budget.offer(size).committed),
{
    if budget.fits(size) {
        assert(budget.committed.push(size).drop_last() =~= budget.committed);
    }
}

/// The sum of the first `k` sizes is at most the sum of all of them.
pub proof fn lemma_total_of_prefix(sizes: Seq<nat>, k: int)
    requires
        0 <= k <= sizes.len(),
    ensures
        total(sizes.take(k)) <= total(sizes),
    decreases sizes.len(),
{
    if k == sizes.len() {
        assert(sizes.take(k) =~= sizes);
    } else {
        assert(sizes.drop_last().take(k) =~= sizes.take(k));
        lemma_total_of_prefix(sizes.drop_last(), k);
    }
}

/// At no point of its history was a well-formed budget past its ceiling: the
/// running sum of the committed sizes stays within it.
pub proof fn lemma_running_sum_within_ceiling(budget: Budget, k: int)
    requires
        budget.wf(),
        0 <= k <= budget.committed.len(),
    ensures
        total(budget.committed.take(k)) <= budget.max_units,
{
    lemma_total_of_prefix(budget.committed, k);
}

/// Once a budget is exhausted, a block of any size above zero is turned down
/// and the budget stays as it is.
pub proof fn lemma_exhausted_is_final(budget: Budget, size: nat)
    requires
        budget.exhausted(),
        size > 0,
    ensures
        !budget.fits(size),
        budget.offer(size) == budget,
{
}

} // verus!
