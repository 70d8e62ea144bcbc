use vstd::prelude::*;

verus! {

/// Why a marketplace call was refused or a settlement could not proceed.
///
/// `GatewayFailure` describes the remote transfer service rejecting or timing
/// out; the settlement protocol absorbs that outcome into a refund, so the
/// variant is surfaced only by callers that relay the outcome onward.
/// `InvariantViolation` means a listing vanished while a purchase was in
/// flight; it aborts the settlement instead of paying anyone.
#[derive(Clone, Copy, Debug, PartialEq, Eq, Structural)]
pub enum MarketError {
    NotFound,
    DuplicateListing,
    NotOwner,
    InsufficientDeposit,
    WrongAmount { payment: u128, price: u128 },
    GatewayFailure,
    InvariantViolation,
    PurchaseInProgress,
}

} // verus!
