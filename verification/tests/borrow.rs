use hikari::borrow::{
    exclusive_borrow_outcome, shared_borrow_outcome, unsync_exclusive_allowed, unsync_shared_allowed, BorrowError,
    SharedBorrowOutcome, HIGH_BIT, MAX_FAILED_BORROWS,
};

#[test]
fn high_bit_is_the_top_bit() {
    assert_eq!(HIGH_BIT, !(usize::MAX >> 1));
    assert_eq!(HIGH_BIT.count_ones(), 1);
    assert_eq!(MAX_FAILED_BORROWS, HIGH_BIT + HIGH_BIT / 2);
}

#[test]
fn shared_borrows_on_a_free_or_shared_cell_are_granted() {
    assert_eq!(shared_borrow_outcome(1), SharedBorrowOutcome::Granted);
    assert_eq!(shared_borrow_outcome(5), SharedBorrowOutcome::Granted);
    assert_eq!(shared_borrow_outcome(HIGH_BIT - 1), SharedBorrowOutcome::Granted);
}

#[test]
fn shared_borrows_during_an_exclusive_one_are_refused() {
    assert_eq!(shared_borrow_outcome(HIGH_BIT + 1), SharedBorrowOutcome::Refused);
    assert_eq!(shared_borrow_outcome(MAX_FAILED_BORROWS - 1), SharedBorrowOutcome::Refused);
}

#[test]
fn counter_overflow_stops_the_program() {
    assert_eq!(shared_borrow_outcome(HIGH_BIT), SharedBorrowOutcome::TooManyShared);
    assert_eq!(shared_borrow_outcome(MAX_FAILED_BORROWS), SharedBorrowOutcome::TooManyFailed);
}

#[test]
fn exclusive_borrows() {
    assert_eq!(exclusive_borrow_outcome(0), Ok(()));
    assert_eq!(exclusive_borrow_outcome(3), Err(BorrowError::AlreadyImmutablyBorrowed));
    assert_eq!(exclusive_borrow_outcome(HIGH_BIT), Err(BorrowError::AlreadyMutablyBorrowed));
    assert_eq!(exclusive_borrow_outcome(HIGH_BIT + 2), Err(BorrowError::AlreadyMutablyBorrowed));
    assert_eq!(BorrowError::AlreadyMutablyBorrowed.message(), "already mutably borrowed");
    assert_eq!(BorrowError::AlreadyImmutablyBorrowed.message(), "already immutably borrowed");
}

#[test]
fn single_threaded_borrow_states() {
    assert!(unsync_shared_allowed(0));
    assert!(unsync_shared_allowed(-3));
    assert!(!unsync_shared_allowed(1));
    assert!(unsync_exclusive_allowed(0));
    assert!(!unsync_exclusive_allowed(-1));
    assert!(!unsync_exclusive_allowed(1));
}
