//! The settlement protocol's vocabulary and its mathematical model.
//!
//! `purchase` and `resolve` are the two halves of a saga with no rollback of
//! the remote step: phase one locks the payment and issues one outbound
//! transfer request; phase two, run when the custodial service reports an
//! outcome, either commits (pay the beneficiary, drop the listing) or
//! compensates (refund the buyer, reopen the listing). The spec functions
//! here say exactly what each phase does to the registry and what it pays;
//! the exec entry points on `Contract` are proved against them.

use vstd::prelude::*;

use crate::errors::MarketError;
use crate::sale::{KeyV, SaleV, Status};

verus! {

/// The one outbound request phase one issues: move the asset to the buyer,
/// enforcing that it currently belongs to the listed owner. The custodial
/// service performs it and reports the outcome; this system only builds it.
#[derive(Debug)]
pub struct TransferRequest {
    pub receiver_id: String,
    pub token_id: String,
    pub enforce_owner_id: String,
    pub memo: String,
}

/// Mathematical view of a `TransferRequest`.
pub struct TransferRequestV {
    pub receiver_id: Seq<char>,
    pub token_id: Seq<char>,
    pub enforce_owner_id: Seq<char>,
    pub memo: Seq<char>,
}

impl View for TransferRequest {
    type V = TransferRequestV;

    open spec fn view(&self) -> TransferRequestV {
        TransferRequestV {
            receiver_id: self.receiver_id@,
            token_id: self.token_id@,
            enforce_owner_id: self.enforce_owner_id@,
            memo: self.memo@,
        }
    }
}

/// A scheduled movement of native currency out of escrow. The host delivers
/// it; this system only decides recipient and amount.
#[derive(Debug)]
pub struct FundTransfer {
    pub recipient: String,
    pub amount: u128,
}

/// What resolving a purchase settled on: whether the asset moved, and the
/// single fund movement this resolution schedules.
#[derive(Debug)]
pub struct Settlement {
    pub succeeded: bool,
    pub payout: FundTransfer,
}

/// Mathematical view of a `Settlement`.
pub struct SettlementV {
    pub succeeded: bool,
    pub recipient: Seq<char>,
    pub amount: u128,
}

impl View for Settlement {
    type V = SettlementV;

    open spec fn view(&self) -> SettlementV {
        SettlementV {
            succeeded: self.succeeded,
            recipient: self.payout.recipient@,
            amount: self.payout.amount,
        }
    }
}

/// Phase one of the saga, as a step on the listing map: reject a missing
/// listing, a listing already pending, or an inexact payment, all without
/// touching the map; otherwise mark the listing pending and issue the
/// transfer request.
pub open spec fn purchase_model(
    m: Map<KeyV, SaleV>,
    k: KeyV,
    buyer: Seq<char>,
    payment: u128,
) -> (Map<KeyV, SaleV>, Result<TransferRequestV, MarketError>) {
    if !m.contains_key(k) {
        (m, Err(MarketError::NotFound))
    } else if m[k].status == Status::PurchasePending {
        (m, Err(MarketError::PurchaseInProgress))
    } else if payment != m[k].price {
        (m, Err(MarketError::WrongAmount { payment, price: m[k].price }))
    } else {
        (
            m.insert(k, SaleV { status: Status::PurchasePending, ..m[k] }),
            Ok(
                TransferRequestV {
                    receiver_id: buyer,
                    token_id: k.token_id,
                    enforce_owner_id: m[k].owner,
                    memo: "Sold by Market"@,
                },
            ),
        )
    }
}

/// Phase two of the saga, as a step on the listing map: if the listing
/// vanished the settlement aborts and pays nobody; on a successful transfer
/// the listing is removed and price plus deposit go to the beneficiary; on a
/// failed transfer the payment goes back to the buyer and the listing
/// reopens, deposit intact.
pub open spec fn resolve_model(
    m: Map<KeyV, SaleV>,
    k: KeyV,
    buyer: Seq<char>,
    transfer_succeeded: bool,
) -> (Map<KeyV, SaleV>, Result<SettlementV, MarketError>) {
    if !m.contains_key(k) {
        (m, Err(MarketError::InvariantViolation))
    } else if transfer_succeeded {
        (
            m.remove(k),
            Ok(
                SettlementV {
                    succeeded: true,
                    recipient: m[k].beneficiary,
                    amount: ((m[k].price + m[k].deposit) as u128),
                },
            ),
        )
    } else {
        (
            m.insert(k, SaleV { status: Status::Listed, ..m[k] }),
            Ok(SettlementV { succeeded: false, recipient: buyer, amount: m[k].price }),
        )
    }
}

/// Conservation: for any completed purchase attempt — a purchase that was
/// accepted and then resolved — exactly one fund movement leaves escrow:
/// `price + deposit` to the listing's beneficiary when the transfer
/// succeeded, or exactly the locked payment back to the buyer when it
/// failed. The deposit is never lost and never duplicated.
pub proof fn lemma_conservation(
    m: Map<KeyV, SaleV>,
    k: KeyV,
    buyer: Seq<char>,
    payment: u128,
    transfer_succeeded: bool,
)
    requires
        m.contains_key(k) ==> m[k].valid(),
    ensures
        ({
            let (m1, r1) = purchase_model(m, k, buyer, payment);
            r1 matches Ok(_) ==> {
                let (m2, r2) = resolve_model(m1, k, buyer, transfer_succeeded);
                &&& r2 matches Ok(s)
                &&& (s.succeeded <==> transfer_succeeded)
                &&& (transfer_succeeded ==> s.recipient == m[k].beneficiary && s.amount == m[k].price
                    + m[k].deposit)
                &&& (!transfer_succeeded ==> s.recipient == buyer && s.amount == payment)
            }
        }),
{
}

/// No double payout: once a resolution succeeds, the listing is gone, so any
/// further resolution of the same listing aborts with `InvariantViolation`,
/// changes nothing, and pays nobody.
pub proof fn lemma_no_double_payout(
    m: Map<KeyV, SaleV>,
    k: KeyV,
    first_buyer: Seq<char>,
    later_buyer: Seq<char>,
    later_outcome: bool,
)
    ensures
        ({
            let (m1, r1) = resolve_model(m, k, first_buyer, true);
            r1 matches Ok(_) ==> resolve_model(m1, k, later_buyer, later_outcome) == (
                m1,
                Err::<SettlementV, MarketError>(MarketError::InvariantViolation),
            )
        }),
{
}

/// The purchase race is closed: once one purchase of a listing is accepted,
/// a second purchase of the same listing is rejected with
/// `PurchaseInProgress` and changes nothing, until a failed resolution
/// reopens the listing.
pub proof fn lemma_purchase_race(
    m: Map<KeyV, SaleV>,
    k: KeyV,
    first_buyer: Seq<char>,
    first_payment: u128,
    later_buyer: Seq<char>,
    later_payment: u128,
)
    ensures
        ({
            let (m1, r1) = purchase_model(m, k, first_buyer, first_payment);
            r1 matches Ok(_) ==> purchase_model(m1, k, later_buyer, later_payment) == (
                m1,
                Err::<TransferRequestV, MarketError>(MarketError::PurchaseInProgress),
            )
        }),
{
}

} // verus!
