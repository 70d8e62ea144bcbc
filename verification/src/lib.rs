//! An escrow-mediated marketplace for a tradeable digital asset.
//!
//! A listing offers one asset for a fixed price together with an escrowed
//! deposit. A purchase locks the buyer's payment, asks the asset's custodial
//! service for an ownership transfer, and settles once that service reports
//! an outcome: on success the beneficiary receives price plus deposit and the
//! listing is gone; on failure the buyer is refunded and the listing stays
//! open. The settlement protocol, the listing registry and all the rules that
//! guard them live here; the host-facing plumbing (attached deposits, the
//! outbound transfer call, the scheduled fund movements) is the caller's.

pub mod errors;
pub mod market;
pub mod protocol;
pub mod registry;
pub mod sale;
