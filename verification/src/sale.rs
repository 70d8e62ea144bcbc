use vstd::prelude::*;

verus! {

/// Spec-level form of the composite listing identifier: the identity of the
/// service that custodies the asset, and the asset's id within that service.
pub struct KeyV {
    pub service_id: Seq<char>,
    pub token_id: Seq<char>,
}

/// Lifecycle of a listing. A purchase moves it to `PurchasePending` until the
/// custodial service reports an outcome; a failed settlement moves it back to
/// `Listed`, and a successful one removes the record altogether.
#[derive(Clone, Copy, Debug, PartialEq, Eq, Structural)]
pub enum Status {
    Listed,
    PurchasePending,
}

/// A listing: one asset offered at a fixed price, with the lister's deposit
/// held in escrow for the life of the listing.
#[derive(Debug)]
pub struct Sale {
    /// Identity entitled to cancel the listing and to the deposit refund.
    pub owner: String,
    /// Identity that receives price plus deposit on successful settlement.
    pub beneficiary: String,
    /// Amount, in the smallest currency unit, a buyer must pay exactly.
    pub price: u128,
    /// Amount escrowed by the lister at listing time.
    pub deposit: u128,
    /// Where the record stands in the settlement protocol.
    pub status: Status,
}

/// Mathematical view of a `Sale`.
pub struct SaleV {
    pub owner: Seq<char>,
    pub beneficiary: Seq<char>,
    pub price: u128,
    pub deposit: u128,
    pub status: Status,
}

impl SaleV {
    /// The settlement payout is `price + deposit`; every stored record keeps
    /// that sum inside the currency type so the payout cannot overflow.
    pub open spec fn valid(self) -> bool {
        self.price + self.deposit <= u128::MAX
    }
}

impl View for Sale {
    type V = SaleV;

    open spec fn view(&self) -> SaleV {
        SaleV {
            owner: self.owner@,
            beneficiary: self.beneficiary@,
            price: self.price,
            deposit: self.deposit,
            status: self.status,
        }
    }
}

impl Clone for Sale {
    fn clone(&self) -> (r: Self)
        ensures
            r@ == self@,
    {
        Sale {
            owner: self.owner.clone(),
            beneficiary: self.beneficiary.clone(),
            price: self.price,
            deposit: self.deposit,
            status: self.status,
        }
    }
}

} // verus!
