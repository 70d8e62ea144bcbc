//! The marketplace contract: listing creation and cancellation over the
//! registry, and the two-phase purchase settlement protocol.
//!
//! Every entry point takes the facts the host delivers with a call — the
//! caller's identity and the currency attached to the call — as plain
//! arguments, and returns the fund movements and outbound requests it
//! decides on as plain values for the host to perform. Validation always
//! precedes mutation, and every currency-moving effect is decided last.

use vstd::prelude::*;

use crate::errors::MarketError;
use crate::protocol::{
    purchase_model, resolve_model, FundTransfer, Settlement, TransferRequest,
};
use crate::registry::Registry;
use crate::sale::{KeyV, Sale, SaleV, Status};

verus! {

/// Least deposit, in the smallest native-currency unit, a lister must attach.
pub const MIN_ATTACHED_AMOUNT: u128 = 100_000_000_000_000_000_000_000;

/// The marketplace: an administrative owner identity and the listing
/// registry, the only shared mutable state.
pub struct Contract {
    pub owner: String,
    pub sales: Registry,
}

impl Contract {
    /// The listings, as a mapping from key to record.
    pub closed spec fn listings(&self) -> Map<KeyV, SaleV> {
        self.sales@
    }

    /// The registry keeps one record per key and every record can settle
    /// without arithmetic overflow.
    pub closed spec fn wf(&self) -> bool {
        self.sales.wf()
    }

    pub fn new(owner: String) -> (r: Contract)
        ensures
            r.wf(),
            r.listings() == Map::<KeyV, SaleV>::empty(),
            r.owner == owner,
    {
        Contract { owner, sales: Registry::new() }
    }

    /// Creates a listing. The host delivers the caller identity (`lister`,
    /// who becomes the beneficiary) and the attached `deposit` with the
    /// call; `on_behalf_of` lets the lister grant cancellation rights and
    /// the deposit refund to another identity. A deposit under the minimum
    /// or a key already listed is rejected with nothing changed.
    pub fn add_sale(
        &mut self,
        token_contract_id: String,
        token_id: String,
        price: u128,
        on_behalf_of: Option<String>,
        lister: String,
        deposit: u128,
    ) -> (r: Result<(), MarketError>)
        requires
            old(self).wf(),
            price + deposit <= u128::MAX,
        ensures
            final(self).wf(),
            final(self).owner == old(self).owner,
            ({
                let k = (KeyV { service_id: token_contract_id@, token_id: token_id@ });
                if deposit < MIN_ATTACHED_AMOUNT {
                    r == Err::<(), MarketError>(MarketError::InsufficientDeposit) && final(self).listings() == old(self).listings()
                } else if old(self).listings().contains_key(k) {
                    r == Err::<(), MarketError>(MarketError::DuplicateListing) && final(self).listings() == old(self).listings()
                } else {
                    r == Ok::<(), MarketError>(()) && final(self).listings() == old(self).listings().insert(
                        k,
                        SaleV {
                            owner: (match on_behalf_of {
                                Some(o) => o@,
                                None => lister@,
                            }),
                            beneficiary: lister@,
                            price: price,
                            deposit: deposit,
                            status: Status::Listed,
                        },
                    )
                }
            }),
    {
        if deposit < MIN_ATTACHED_AMOUNT {
            return Err(MarketError::InsufficientDeposit);
        }
        let owner = match on_behalf_of {
            Some(o) => o,
            None => lister.clone(),
        };
        let sale = Sale { owner, beneficiary: lister, price, deposit, status: Status::Listed };
        self.sales.create(token_contract_id, token_id, sale)
    }

    /// Cancels a listing. Authorization is verified before any mutation:
    /// a non-owner requester leaves the listing and its deposit untouched.
    /// On success the record is removed and the deposit refund to its owner
    /// is the one scheduled fund movement.
    pub fn remove_sale(
        &mut self,
        token_contract_id: String,
        token_id: String,
        requester: String,
    ) -> (r: Result<FundTransfer, MarketError>)
        requires
            old(self).wf(),
        ensures
            final(self).wf(),
            final(self).owner == old(self).owner,
            ({
                let k = (KeyV { service_id: token_contract_id@, token_id: token_id@ });
                if !old(self).listings().contains_key(k) {
                    r == Err::<FundTransfer, MarketError>(MarketError::NotFound) && final(self).listings() == old(self).listings()
                } else if requester@ != old(self).listings()[k].owner {
                    r == Err::<FundTransfer, MarketError>(MarketError::NotOwner) && final(self).listings() == old(self).listings()
                } else {
                    &&& r matches Ok(ft)
                    &&& ft.recipient@ == old(self).listings()[k].owner
                    &&& ft.amount == old(self).listings()[k].deposit
                    &&& final(self).listings() == old(self).listings().remove(k)
                }
            }),
    {
        match self.sales.read(&token_contract_id, &token_id) {
            Err(e) => {
                return Err(e);
            },
            Ok(sale) => {
                if !(requester == sale.owner) {
                    return Err(MarketError::NotOwner);
                }
            },
        }
        match self.sales.remove(&token_contract_id, &token_id) {
            Err(_) => {
                proof {
                    assert(false);
                }
                Err(MarketError::NotFound)
            },
            Ok(sale) => Ok(FundTransfer { recipient: sale.owner, amount: sale.deposit }),
        }
    }

    /// Phase one of the settlement saga. The host delivers the buyer
    /// identity and the attached payment with the call; the payment must
    /// equal the price exactly. On acceptance the listing is marked
    /// pending — further purchases are rejected until resolution — and the
    /// returned request asks the custodial service to move the asset to the
    /// buyer, enforcing the listed owner. The payment stays in escrow until
    /// `nft_resolve_purchase` runs for this attempt.
    pub fn purchase(
        &mut self,
        token_contract_id: String,
        token_id: String,
        buyer: String,
        payment: u128,
    ) -> (r: Result<TransferRequest, MarketError>)
        requires
            old(self).wf(),
        ensures
            final(self).wf(),
            final(self).owner == old(self).owner,
            ({
                let k = (KeyV { service_id: token_contract_id@, token_id: token_id@ });
                let (m2, rv) = purchase_model(old(self).listings(), k, buyer@, payment);
                &&& final(self).listings() == m2
                &&& (match (r, rv) {
                    (Ok(req), Ok(reqv)) => req@ == reqv,
                    (Err(e), Err(ev)) => e == ev,
                    _ => false,
                })
            }),
    {
        let ghost k = KeyV { service_id: token_contract_id@, token_id: token_id@ };
        proof {
            if self.listings().contains_key(k) {
                self.sales.lemma_wf_value(k);
            }
        }
        let (owner, beneficiary, price, deposit) = match self.sales.read(
            &token_contract_id,
            &token_id,
        ) {
            Err(_) => {
                return Err(MarketError::NotFound);
            },
            Ok(sale) => {
                if sale.status == Status::PurchasePending {
                    return Err(MarketError::PurchaseInProgress);
                }
                if payment != sale.price {
                    return Err(MarketError::WrongAmount { payment, price: sale.price });
                }
                (sale.owner.clone(), sale.beneficiary.clone(), sale.price, sale.deposit)
            },
        };
        let pending = Sale {
            owner: owner.clone(),
            beneficiary,
            price,
            deposit,
            status: Status::PurchasePending,
        };
        let req = TransferRequest {
            receiver_id: buyer,
            token_id: token_id.clone(),
            enforce_owner_id: owner,
            memo: "Sold by Market".to_string(),
        };
        self.sales.replace(token_contract_id, token_id, pending);
        Ok(req)
    }

    /// Phase two: the mandatory continuation, run by the host once the
    /// custodial service reports this attempt's outcome. On success the
    /// listing is removed and price plus deposit go to the beneficiary; on
    /// failure the buyer is refunded exactly the payment and the listing
    /// reopens with its deposit intact. A listing missing at resolution is
    /// an internal-consistency failure: the settlement aborts with
    /// `InvariantViolation` and pays nobody.
    pub fn nft_resolve_purchase(
        &mut self,
        token_contract_id: String,
        token_id: String,
        buyer_id: String,
        transfer_succeeded: bool,
    ) -> (r: Result<Settlement, MarketError>)
        requires
            old(self).wf(),
        ensures
            final(self).wf(),
            final(self).owner == old(self).owner,
            ({
                let k = (KeyV { service_id: token_contract_id@, token_id: token_id@ });
                let (m2, rv) = resolve_model(old(self).listings(), k, buyer_id@, transfer_succeeded);
                &&& final(self).listings() == m2
                &&& (match (r, rv) {
                    (Ok(s), Ok(sv)) => s@ == sv,
                    (Err(e), Err(ev)) => e == ev,
                    _ => false,
                })
            }),
    {
        let ghost k = KeyV { service_id: token_contract_id@, token_id: token_id@ };
        proof {
            if self.listings().contains_key(k) {
                self.sales.lemma_wf_value(k);
            }
        }
        if transfer_succeeded {
            match self.sales.remove(&token_contract_id, &token_id) {
                Err(_) => Err(MarketError::InvariantViolation),
                Ok(sale) => {
                    let amount = sale.price + sale.deposit;
                    Ok(
                        Settlement {
                            succeeded: true,
                            payout: FundTransfer { recipient: sale.beneficiary, amount },
                        },
                    )
                },
            }
        } else {
            let (owner, beneficiary, price, deposit) = match self.sales.read(
                &token_contract_id,
                &token_id,
            ) {
                Err(_) => {
                    return Err(MarketError::InvariantViolation);
                },
                Ok(sale) => {
                    (sale.owner.clone(), sale.beneficiary.clone(), sale.price, sale.deposit)
                },
            };
            let reopened = Sale { owner, beneficiary, price, deposit, status: Status::Listed };
            self.sales.replace(token_contract_id, token_id, reopened);
            Ok(
                Settlement {
                    succeeded: false,
                    payout: FundTransfer { recipient: buyer_id, amount: price },
                },
            )
        }
    }

    /// Read path: the current record, verbatim. Pure and side-effect free.
    pub fn get_sale(&self, token_contract_id: String, token_id: String) -> (r: Result<
        Sale,
        MarketError,
    >)
        requires
            self.wf(),
        ensures
            ({
                let k = (KeyV { service_id: token_contract_id@, token_id: token_id@ });
                if self.listings().contains_key(k) {
                    r matches Ok(s) && s@ == self.listings()[k]
                } else {
                    r == Err::<Sale, MarketError>(MarketError::NotFound)
                }
            }),
    {
        match self.sales.read(&token_contract_id, &token_id) {
            Ok(sale) => Ok(sale.clone()),
            Err(e) => Err(e),
        }
    }
}

} // verus!
