//! A ledger-backed marketplace engine for registered fungible asset units,
//! priced and settled in a single settlement-currency unit.
//!
//! The crate keeps an authoritative registry of assets, a book of standing
//! sell offers, and an atomic settlement procedure. Balance movement, caller
//! authorization and durable storage belong to the host that embeds the
//! engine; every entry point here is a single verified state transition that
//! returns the ledger actions the host must perform.

mod controller;
mod kv;
mod price;
pub mod laws;
mod types;

pub use controller::CarbonController;
pub use controller::lemma_book_invariant;
pub use price::cost_of;
pub use price::SCALE;
pub use types::BuyAction;
pub use types::CarbonAssetMeta;
pub use types::CarbonRetireEvent;
pub use types::Error;
pub use types::Listing;
pub use types::MintAction;
pub use types::RetireAction;
