use llmctx::{estimate_tokens, BudgetLedger, ContextError, CHARS_PER_TOKEN, DEFAULT_MAX_TOKENS};

#[test]
fn new_ledger_has_nothing_consumed() {
    let ledger = BudgetLedger::new(100);
    assert_eq!(ledger.max_units(), 100);
    assert_eq!(ledger.consumed_units(), 0);
    assert_eq!(ledger.remaining_units(), 100);
    assert!(!ledger.is_exhausted());
}

#[test]
fn commit_that_fits_is_charged() {
    let mut ledger = BudgetLedger::new(100);
    assert!(ledger.try_commit(30));
    assert_eq!(ledger.consumed_units(), 30);
    assert!(ledger.try_commit(70));
    assert_eq!(ledger.consumed_units(), 100);
    assert_eq!(ledger.remaining_units(), 0);
}

#[test]
fn commit_that_does_not_fit_changes_nothing() {
    let mut ledger = BudgetLedger::new(100);
    assert!(ledger.try_commit(60));
    assert!(!ledger.try_commit(41));
    assert_eq!(ledger.consumed_units(), 60);
    assert!(!ledger.is_exhausted());
    assert!(ledger.try_commit(40));
    assert_eq!(ledger.consumed_units(), 100);
}

#[test]
fn a_rejection_is_no_stop_signal() {
    let mut ledger = BudgetLedger::new(50);
    assert!(!ledger.try_commit(51));
    assert!(!ledger.is_exhausted());
    assert!(ledger.try_commit(10));
}

#[test]
fn exhausted_ledger_turns_every_size_above_zero_down() {
    let mut ledger = BudgetLedger::new(25);
    assert!(ledger.try_commit(25));
    assert!(ledger.is_exhausted());
    assert!(!ledger.try_commit(1));
    assert!(!ledger.try_commit(u64::MAX));
    assert_eq!(ledger.consumed_units(), 25);
    assert!(ledger.is_exhausted());
}

#[test]
fn zero_budget_is_exhausted_from_the_start() {
    let mut ledger = BudgetLedger::new(0);
    assert!(ledger.is_exhausted());
    assert!(!ledger.try_commit(1));
    assert!(ledger.try_commit(0));
    assert_eq!(ledger.consumed_units(), 0);
}

#[test]
fn sizes_near_the_top_of_the_range_do_not_wrap() {
    let mut ledger = BudgetLedger::new(u64::MAX);
    assert!(ledger.try_commit(u64::MAX - 1));
    assert!(!ledger.try_commit(2));
    assert!(ledger.fits(1));
    assert!(ledger.try_commit(1));
    assert!(ledger.is_exhausted());
    assert_eq!(ledger.consumed_units(), u64::MAX);
}

#[test]
fn fits_agrees_with_try_commit() {
    let mut ledger = BudgetLedger::new(10);
    assert!(ledger.fits(10));
    assert!(!ledger.fits(11));
    assert!(ledger.try_commit(4));
    assert!(ledger.fits(6));
    assert!(!ledger.fits(7));
}

#[test]
fn running_sum_stays_within_the_ceiling() {
    let mut ledger = BudgetLedger::new(100);
    let mut accepted_sum = 0u64;
    for size in [40u64, 70, 30, 31, 29, 1, 5] {
        if ledger.try_commit(size) {
            accepted_sum += size;
        }
        assert!(accepted_sum <= 100);
        assert_eq!(ledger.consumed_units(), accepted_sum);
    }
    assert_eq!(accepted_sum, 100);
}

#[test]
fn token_ceiling_is_worth_four_units_each() {
    assert_eq!(CHARS_PER_TOKEN, 4);
    let ledger = BudgetLedger::from_tokens(25).unwrap();
    assert_eq!(ledger.max_units(), 100);
    assert_eq!(ledger.consumed_units(), 0);
}

#[test]
fn default_token_ceiling() {
    assert_eq!(DEFAULT_MAX_TOKENS, 100_000_000);
    let ledger = BudgetLedger::from_tokens(DEFAULT_MAX_TOKENS).unwrap();
    assert_eq!(ledger.max_units(), 400_000_000);
}

#[test]
fn largest_token_ceiling_that_fits() {
    let ledger = BudgetLedger::from_tokens(u64::MAX / 4).unwrap();
    assert_eq!(ledger.max_units(), u64::MAX - 3);
}

#[test]
fn token_ceiling_too_large_is_an_invalid_budget() {
    let tokens = u64::MAX / 4 + 1;
    match BudgetLedger::from_tokens(tokens) {
        Err(error) => assert_eq!(error, ContextError::InvalidBudgetValue(tokens)),
        Ok(_) => panic!("a budget past the range was accepted"),
    }
    assert!(BudgetLedger::from_tokens(u64::MAX).is_err());
}

#[test]
fn tokens_are_units_divided_by_four_rounded_down() {
    assert_eq!(estimate_tokens(0), 0);
    assert_eq!(estimate_tokens(3), 0);
    assert_eq!(estimate_tokens(4), 1);
    assert_eq!(estimate_tokens(1234), 308);
    assert_eq!(estimate_tokens(u64::MAX), u64::MAX / 4);
}
