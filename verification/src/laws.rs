use vstd::prelude::*;

use crate::controller::CarbonController;
use crate::types::{CarbonAssetMeta, Listing};

verus! {

/// Registration is last-write-wins: in any state reached by registering
/// `meta` under `code` — no matter what was registered for `code` before,
/// or how often — a lookup of `code` cannot fail and returns exactly `meta`.
pub proof fn lemma_lookup_after_register(
    pre: CarbonController,
    post: CarbonController,
    code: u64,
    meta: CarbonAssetMeta,
)
    requires
        post.asset_map() == pre.asset_map().insert(code, meta),
    ensures
        post.asset_map().contains_key(code),
        post.asset_map()[code] == meta,
{
}

/// Repeated registration of the same code overwrites silently: only the
/// metadata written last is visible.
pub proof fn lemma_reregister_overwrites(
    registry: Map<u64, CarbonAssetMeta>,
    code: u64,
    first: CarbonAssetMeta,
    second: CarbonAssetMeta,
)
    ensures
        registry.insert(code, first).insert(code, second) == registry.insert(code, second),
{
    assert(registry.insert(code, first).insert(code, second) =~= registry.insert(code, second));
}

/// What a read of the book finds after a settled purchase: a partial fill
/// leaves a listing with the remaining amount and the unchanged price under
/// the same key, and an exact fill leaves no listing at all.
pub proof fn lemma_book_after_buy(book: Map<(u64, u64), Listing>, key: (u64, u64), amount: i128)
    requires
        book.contains_key(key),
        0 < amount <= book[key].amount,
    ensures
        amount < book[key].amount ==> {
            let after = book.insert(
                key,
                (Listing { amount: (book[key].amount - amount) as i128, price: book[key].price }),
            );
            &&& after.contains_key(key)
            &&& after[key].amount == book[key].amount - amount
            &&& after[key].price == book[key].price
        },
        amount == book[key].amount ==> !book.remove(key).contains_key(key),
{
}

} // verus!
