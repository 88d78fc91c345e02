//! Borrow bookkeeping of the state cells.
//!
//! The thread-safe cell keeps one counter: while it is below `HIGH_BIT` it
//! counts the shared borrows; an exclusive borrow sets it to `HIGH_BIT`, and
//! shared attempts made meanwhile push it further up until the exclusive
//! borrow resets it to zero.  The single-threaded cell keeps a signed
//! counter: negative for shared borrows, positive for an exclusive one.
//! The functions here decide what a borrow attempt leads to from the value
//! of the counter.
use vstd::prelude::*;

verus! {

/// The top bit of a `usize`: set while the cell is borrowed exclusively.
pub const HIGH_BIT: usize = !(!0usize >> 1);

/// From this count on, failed shared attempts during one exclusive borrow
/// are too many to go on.
pub const MAX_FAILED_BORROWS: usize = HIGH_BIT | (HIGH_BIT >> 1);

/// Why a borrow was refused.
#[derive(Clone, Copy, Debug, PartialEq, Eq, Structural)]
pub enum BorrowError {
    AlreadyMutablyBorrowed,
    AlreadyImmutablyBorrowed,
}

impl BorrowError {
    /// The message the cell reports.
    pub fn message(self) -> (m: &'static str)
        ensures
            m@ == (match self {
                BorrowError::AlreadyMutablyBorrowed => "already mutably borrowed"@,
                BorrowError::AlreadyImmutablyBorrowed => "already immutably borrowed"@,
            }),
    {
        match self {
            BorrowError::AlreadyMutablyBorrowed => "already mutably borrowed",
            BorrowError::AlreadyImmutablyBorrowed => "already immutably borrowed",
        }
    }
}

/// What a shared borrow attempt leads to, from the count it raised.
#[derive(Clone, Copy, Debug, PartialEq, Eq, Structural)]
pub enum SharedBorrowOutcome {
    /// The borrow is granted.
    Granted,
    /// An exclusive borrow holds the cell; the raised count stays as it is
    /// until that borrow ends.
    Refused,
    /// The shared count reached `HIGH_BIT`: it must be lowered again and the
    /// program stops.
    TooManyShared,
    /// Too many attempts failed during one exclusive borrow: the program stops.
    TooManyFailed,
}

proof fn lemma_high_bit()
    ensures
        HIGH_BIT > 1,
        MAX_FAILED_BORROWS == HIGH_BIT + HIGH_BIT / 2,
        forall|x: usize| #[trigger] (x & HIGH_BIT) != 0 <==> x >= HIGH_BIT,
{
    assert(!(!0usize >> 1) > 1) by (bit_vector);
    assert((!(!0usize >> 1) | (!(!0usize >> 1) >> 1)) == !(!0usize >> 1) + !(!0usize >> 1) / 2) by (bit_vector);
    assert(forall|x: usize| #[trigger] (x & !(!0usize >> 1)) != 0 <==> x >= !(!0usize >> 1)) by (bit_vector);
}

/// The outcome of a shared attempt that raised the count to `new`.
pub open spec fn shared_outcome(new: usize) -> SharedBorrowOutcome {
    if new < HIGH_BIT {
        SharedBorrowOutcome::Granted
    } else if new == HIGH_BIT {
        SharedBorrowOutcome::TooManyShared
    } else if new >= MAX_FAILED_BORROWS {
        SharedBorrowOutcome::TooManyFailed
    } else {
        SharedBorrowOutcome::Refused
    }
}

/// Decides a shared borrow attempt that raised the count to `new`.
pub fn shared_borrow_outcome(new: usize) -> (o: SharedBorrowOutcome)
    ensures
        o == shared_outcome(new),
{
    proof {
        lemma_high_bit();
    }
    if new & HIGH_BIT != 0 {
        if new == HIGH_BIT {
            SharedBorrowOutcome::TooManyShared
        } else if new >= MAX_FAILED_BORROWS {
            SharedBorrowOutcome::TooManyFailed
        } else {
            SharedBorrowOutcome::Refused
        }
    } else {
        SharedBorrowOutcome::Granted
    }
}

/// The outcome of an exclusive attempt on a cell whose count was `old`.
pub open spec fn exclusive_outcome(old: usize) -> Result<(), BorrowError> {
    if old == 0 {
        Ok(())
    } else if old < HIGH_BIT {
        Err(BorrowError::AlreadyImmutablyBorrowed)
    } else {
        Err(BorrowError::AlreadyMutablyBorrowed)
    }
}

/// Decides an exclusive borrow attempt on a cell whose count was `old`; on
/// success the count becomes `HIGH_BIT`, otherwise it stays `old`.
pub fn exclusive_borrow_outcome(old: usize) -> (r: Result<(), BorrowError>)
    ensures
        r == exclusive_outcome(old),
{
    proof {
        lemma_high_bit();
    }
    if old == 0 {
        Ok(())
    } else if old & HIGH_BIT == 0 {
        Err(BorrowError::AlreadyImmutablyBorrowed)
    } else {
        Err(BorrowError::AlreadyMutablyBorrowed)
    }
}

/// A cell that nobody borrows grants an exclusive borrow, and the first
/// shared one.
pub proof fn law_free_cell_grants()
    ensures
        exclusive_outcome(0) is Ok,
        shared_outcome(1) == SharedBorrowOutcome::Granted,
{
    lemma_high_bit();
}

/// While shared borrows are out, an exclusive borrow is refused, and one
/// more shared borrow is granted.
pub proof fn law_shared_excludes_exclusive(count: usize)
    requires
        0 < count < HIGH_BIT - 1,
    ensures
        exclusive_outcome(count) == Err::<(), BorrowError>(BorrowError::AlreadyImmutablyBorrowed),
        shared_outcome((count + 1) as usize) == SharedBorrowOutcome::Granted,
{
    lemma_high_bit();
}

/// While an exclusive borrow is out (the count at `HIGH_BIT` plus the shared
/// attempts refused meanwhile), every other borrow is refused, until
/// attempts pile up to the limit.
pub proof fn law_exclusive_excludes_all(count: usize)
    requires
        HIGH_BIT <= count,
        count + 1 < MAX_FAILED_BORROWS,
    ensures
        exclusive_outcome(count) == Err::<(), BorrowError>(BorrowError::AlreadyMutablyBorrowed),
        shared_outcome((count + 1) as usize) == SharedBorrowOutcome::Refused,
{
    lemma_high_bit();
}

/// Whether the single-threaded cell, with borrow state `state`, grants a
/// shared borrow; the state then drops by one.
pub fn unsync_shared_allowed(state: isize) -> (ok: bool)
    ensures
        ok == (state <= 0),
{
    state <= 0
}

/// Whether the single-threaded cell, with borrow state `state`, grants an
/// exclusive borrow; the state then rises to one.
pub fn unsync_exclusive_allowed(state: isize) -> (ok: bool)
    ensures
        ok == (state == 0),
{
    state == 0
}

} // verus!
