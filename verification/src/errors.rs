use vstd::prelude::*;

verus! {

/// Error taxonomy of the settlement core. Every operation aborts with the
/// error of the first violated precondition and leaves every record unchanged.
#[derive(Clone, Copy, Debug, PartialEq, Eq, Structural)]
pub enum SuperfanError {
    /// The caller lacks the required role or identity match.
    Unauthorized,
    /// Trading start lies in the past.
    TradingStartsInPast,
    /// Trading end does not come after trading start.
    InvalidTradingWindow,
    /// Resolution deadline does not come after trading end.
    InvalidResolutionDeadline,
    /// The supplied market id does not match the sponsor's counter.
    InvalidMarketId,
    /// Checked arithmetic overflowed.
    MathOverflow,
    /// The trading window is still open.
    TradingStillOpen,
    /// Trading has already started.
    TradingAlreadyStarted,
    /// The market is in the wrong lifecycle state for the requested action.
    InvalidStatus,
    /// The resolution deadline has passed.
    ResolutionDeadlinePassed,
    /// A non-positive amount was supplied.
    InvalidAmount,
    /// The pool's remaining capacity cannot cover the reservation.
    InsufficientLiquidity,
    /// A record with the derived address already exists.
    AccountAlreadyExists,
    /// No record exists at the derived address.
    AccountNotFound,
}

} // verus!
