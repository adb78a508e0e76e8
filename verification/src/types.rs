use vstd::prelude::*;

verus! {

/// Why an entry point refused to act. Every failure aborts the whole call
/// with no partial effect; retry policy is left entirely to the caller.
#[derive(Clone, Copy, Debug, PartialEq, Eq, Structural)]
pub enum Error {
    /// The asset or the listing asked about is not in the store.
    NotFound,
    /// A quantity or a unit price was not strictly positive.
    InvalidArgument,
    /// A buy asked for more units than the listing still offers.
    InsufficientLiquidity,
    /// The settlement cost does not fit the fixed-point integer range.
    ArithmeticOverflow,
    /// The settlement cost exceeds the cap the buyer supplied.
    PriceExceedsCap,
    /// No settlement-currency ledger has been configured yet.
    NotConfigured,
}

/// Metadata for one registered asset code.
#[derive(Clone, Copy, Debug, PartialEq, Eq, Structural)]
pub struct CarbonAssetMeta {
    /// External project identifier.
    pub project_id: i64,
    /// Vintage year tag.
    pub vintage_year: i32,
    /// Reference to the external fungible ledger backing this asset.
    pub token: u64,
    /// Identity allowed to mint new units and to re-register the code.
    pub admin: u64,
}

/// A seller's standing offer: `amount` units for sale at `price` settlement
/// units each. Both are fixed-point integers in the ledger's native scale,
/// and both are strictly positive while the listing exists.
#[derive(Clone, Copy, Debug, PartialEq, Eq, Structural)]
pub struct Listing {
    pub amount: i128,
    pub price: i128,
}

/// The audit record emitted by a successful retirement, addressed to
/// external observers keyed by (asset code, holder).
#[derive(Clone, Debug)]
pub struct CarbonRetireEvent {
    pub asset_code: u64,
    pub holder: u64,
    pub amount: i128,
    pub project_id: i64,
    pub vintage_year: i32,
    pub note: String,
}

/// Ledger action ordered by `mint_to_issuer`: mint `amount` fresh units on
/// the asset's ledger to `recipient`, once `admin` has authorized the call.
#[derive(Clone, Copy, Debug, PartialEq, Eq, Structural)]
pub struct MintAction {
    pub token: u64,
    pub admin: u64,
    pub recipient: u64,
    pub amount: i128,
}

/// The two pre-authorized pull transfers of a settled purchase, to be
/// performed by the host in the same all-or-nothing transaction.
#[derive(Clone, Copy, Debug, PartialEq, Eq, Structural)]
pub struct BuyAction {
    /// Settlement-currency ledger: move `cost` from `buyer` to `seller`.
    pub xml_token: u64,
    /// Asset ledger: move `amount` from `seller` to `buyer`.
    pub carbon_token: u64,
    pub buyer: u64,
    pub seller: u64,
    pub cost: i128,
    pub amount: i128,
}

/// Ledger action ordered by `retire`: burn `record.amount` units of `token`
/// from `record.holder`, then — only after the burn succeeded — publish
/// `record`.
#[derive(Clone, Debug)]
pub struct RetireAction {
    pub token: u64,
    pub record: CarbonRetireEvent,
}

} // verus!
