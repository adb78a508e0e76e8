use vstd::prelude::*;

use crate::kv::{
    kv_map, kv_unique, lemma_kv_domain, lemma_kv_get, lemma_kv_push, lemma_kv_push_unique,
    lemma_kv_remove, lemma_kv_update,
};
use crate::price::{cost_of, scaled_cost};
use crate::types::{BuyAction, CarbonAssetMeta, CarbonRetireEvent, Error, Listing, MintAction,
    RetireAction};

verus! {

/// The semantic half of well-formedness: every standing offer in `book` is
/// strictly positive and refers to a code registered in `assets`.
spec fn book_ok(assets: Map<u64, CarbonAssetMeta>, book: Map<(u64, u64), Listing>) -> bool {
    forall|k: (u64, u64)| #[trigger] book.contains_key(k) ==> {
        &&& book[k].amount > 0
        &&& book[k].price > 0
        &&& assets.contains_key(k.0)
    }
}

/// A growing registry never invalidates the book.
proof fn lemma_book_ok_register(
    assets: Map<u64, CarbonAssetMeta>,
    book: Map<(u64, u64), Listing>,
    code: u64,
    meta: CarbonAssetMeta,
)
    requires
        book_ok(assets, book),
    ensures
        book_ok(assets.insert(code, meta), book),
{
}

/// Writing a positive offer for a registered code keeps the book sound.
proof fn lemma_book_ok_insert(
    assets: Map<u64, CarbonAssetMeta>,
    book: Map<(u64, u64), Listing>,
    key: (u64, u64),
    l: Listing,
)
    requires
        book_ok(assets, book),
        l.amount > 0,
        l.price > 0,
        assets.contains_key(key.0),
    ensures
        book_ok(assets, book.insert(key, l)),
{
}

/// Removing an offer keeps the book sound.
proof fn lemma_book_ok_remove(
    assets: Map<u64, CarbonAssetMeta>,
    book: Map<(u64, u64), Listing>,
    key: (u64, u64),
)
    requires
        book_ok(assets, book),
    ensures
        book_ok(assets, book.remove(key)),
{
}

/// The marketplace engine: an asset registry, a book of standing sell
/// offers, and the reference to the settlement-currency ledger.
///
/// Identities and ledger references are the plain keys the host hands in;
/// the host owns balances, authorization proofs and durable storage. Every
/// method is a single state transition: it either commits fully and returns
/// the ledger actions the host must perform, or fails with an [`Error`] and
/// leaves the state untouched.
pub struct CarbonController {
    assets: Vec<(u64, CarbonAssetMeta)>,
    listings: Vec<((u64, u64), Listing)>,
    xml_token: Option<u64>,
}

impl CarbonController {
    /// The asset registry: code to metadata.
    pub closed spec fn asset_map(&self) -> Map<u64, CarbonAssetMeta> {
        kv_map(self.assets@)
    }

    /// The listing book: (asset code, seller) to standing offer.
    pub closed spec fn listing_map(&self) -> Map<(u64, u64), Listing> {
        kv_map(self.listings@)
    }

    /// The configured settlement-currency ledger, if any.
    pub closed spec fn xml(&self) -> Option<u64> {
        self.xml_token
    }

    /// Well-formedness: the stores are functional, every standing offer is
    /// strictly positive, and every listed asset code is registered.
    pub closed spec fn wf(&self) -> bool {
        &&& kv_unique(self.assets@)
        &&& kv_unique(self.listings@)
        &&& book_ok(self.asset_map(), self.listing_map())
    }

    /// An engine with nothing registered, no offers, and no settlement
    /// currency configured.
    pub fn new() -> (r: CarbonController)
        ensures
            r.wf(),
            r.asset_map() == Map::<u64, CarbonAssetMeta>::empty(),
            r.listing_map() == Map::<(u64, u64), Listing>::empty(),
            r.xml() == Option::<u64>::None,
    {
        let r = CarbonController { assets: Vec::new(), listings: Vec::new(), xml_token: None };
        proof {
            assert(r.assets@ =~= Seq::<(u64, CarbonAssetMeta)>::empty());
            assert(r.listings@ =~= Seq::<((u64, u64), Listing)>::empty());
        }
        r
    }

    /// Index of the registry entry for `code`, if one exists.
    fn find_asset(&self, code: u64) -> (r: Option<usize>)
        ensures
            match r {
                Some(i) => i < self.assets@.len() && self.assets@[i as int].0 == code,
                None => forall|j: int| 0 <= j < self.assets@.len() ==> self.assets@[j].0 != code,
            },
    {
        let mut i: usize = 0;
        while i < self.assets.len()
            invariant
                i <= self.assets@.len(),
                forall|j: int| 0 <= j < i ==> self.assets@[j].0 != code,
            decreases self.assets@.len() - i,
        {
            if self.assets[i].0 == code {
                return Some(i);
            }
            i = i + 1;
        }
        None
    }

    /// Index of the book entry for `(code, seller)`, if one exists.
    fn find_listing(&self, code: u64, seller: u64) -> (r: Option<usize>)
        ensures
            match r {
                Some(i) => i < self.listings@.len() && self.listings@[i as int].0 == (code, seller),
                None => forall|j: int|
                    0 <= j < self.listings@.len() ==> self.listings@[j].0 != (code, seller),
            },
    {
        let mut i: usize = 0;
        while i < self.listings.len()
            invariant
                i <= self.listings@.len(),
                forall|j: int| 0 <= j < i ==> self.listings@[j].0 != (code, seller),
            decreases self.listings@.len() - i,
        {
            let k = self.listings[i].0;
            if k.0 == code && k.1 == seller {
                return Some(i);
            }
            i = i + 1;
        }
        None
    }

    /// Write or overwrite the metadata registered for `asset_code`:
    /// last write wins, and a code is never unregistered. The host must
    /// prove that the supplied `admin` authorized the call before invoking
    /// this.
    pub fn register_asset(
        &mut self,
        asset_code: u64,
        project_id: i64,
        vintage_year: i32,
        token: u64,
        admin: u64,
    )
        requires
            old(self).wf(),
        ensures
            final(self).wf(),
            final(self).asset_map() == old(self).asset_map().insert(
                asset_code,
                (CarbonAssetMeta { project_id, vintage_year, token, admin }),
            ),
            final(self).listing_map() == old(self).listing_map(),
            final(self).xml() == old(self).xml(),
    {
        let meta = CarbonAssetMeta { project_id, vintage_year, token, admin };
        let ghost s0 = self.assets@;
        match self.find_asset(asset_code) {
            Some(i) => {
                self.assets[i] = (asset_code, meta);
                proof {
                    lemma_kv_update(s0, i as int, (asset_code, meta));
                }
            }
            None => {
                self.assets.push((asset_code, meta));
                proof {
                    lemma_kv_push(s0, (asset_code, meta));
                    lemma_kv_push_unique(s0, (asset_code, meta));
                }
            }
        }
        proof {
            lemma_book_ok_register(
                old(self).asset_map(),
                old(self).listing_map(),
                asset_code,
                meta,
            );
        }
    }

    /// Read the metadata registered for `asset_code`.
    pub fn asset_info(&self, asset_code: u64) -> (r: Result<CarbonAssetMeta, Error>)
        requires
            self.wf(),
        ensures
            match r {
                Ok(m) => self.asset_map().contains_key(asset_code)
                    && m == self.asset_map()[asset_code],
                Err(e) => e == Error::NotFound && !self.asset_map().contains_key(asset_code),
            },
    {
        match self.find_asset(asset_code) {
            Some(i) => {
                proof {
                    lemma_kv_get(self.assets@, i as int);
                }
                Ok(self.assets[i].1)
            }
            None => {
                proof {
                    lemma_kv_domain(self.assets@, asset_code);
                }
                Err(Error::NotFound)
            }
        }
    }

    /// Order a mint of `amount` fresh asset units to `issuer`. The returned
    /// action names the registered admin; the host must prove that admin
    /// authorized the call before performing the mint, and it propagates
    /// ledger-level failures unchanged.
    pub fn mint_to_issuer(&self, asset_code: u64, issuer: u64, amount: i128) -> (r: Result<
        MintAction,
        Error,
    >)
        requires
            self.wf(),
        ensures
            match r {
                Ok(a) => self.asset_map().contains_key(asset_code) && a == (MintAction {
                    token: self.asset_map()[asset_code].token,
                    admin: self.asset_map()[asset_code].admin,
                    recipient: issuer,
                    amount: amount,
                }),
                Err(e) => e == Error::NotFound && !self.asset_map().contains_key(asset_code),
            },
    {
        match self.asset_info(asset_code) {
            Ok(meta) => Ok(
                MintAction { token: meta.token, admin: meta.admin, recipient: issuer, amount },
            ),
            Err(e) => Err(e),
        }
    }

    /// Point the engine at the ledger whose units are the settlement
    /// currency. Overwrites any previous reference. The host must prove
    /// `caller` authorized the call before invoking this.
    pub fn set_xml_token(&mut self, caller: u64, xml_token: u64)
        requires
            old(self).wf(),
        ensures
            final(self).wf(),
            final(self).xml() == Some(xml_token),
            final(self).asset_map() == old(self).asset_map(),
            final(self).listing_map() == old(self).listing_map(),
    {
        let _ = caller;
        self.xml_token = Some(xml_token);
    }

    /// Create or replace `seller`'s standing offer for `asset_code`: last
    /// write wins, with no merge of any prior remaining amount. Fails with
    /// `InvalidArgument` for a non-positive amount or price — whether or
    /// not the asset exists — and with `NotFound` for an unregistered
    /// asset, leaving the book unchanged either way. The host must prove
    /// `seller` authorized the call.
    pub fn list_asset(&mut self, seller: u64, asset_code: u64, amount: i128, price: i128) -> (r:
        Result<(), Error>)
        requires
            old(self).wf(),
        ensures
            final(self).wf(),
            final(self).asset_map() == old(self).asset_map(),
            final(self).xml() == old(self).xml(),
            (amount <= 0 || price <= 0) ==> r == Err::<(), Error>(Error::InvalidArgument)
                && final(self).listing_map() == old(self).listing_map(),
            amount > 0 && price > 0 && !old(self).asset_map().contains_key(asset_code) ==> r
                == Err::<(), Error>(Error::NotFound) && final(self).listing_map() == old(
                self,
            ).listing_map(),
            old(self).asset_map().contains_key(asset_code) && amount > 0 && price > 0 ==> r
                == Ok::<(), Error>(()) && final(self).listing_map() == old(self).listing_map().insert(
                (asset_code, seller),
                (Listing { amount, price }),
            ),
    {
        if amount <= 0 || price <= 0 {
            return Err(Error::InvalidArgument);
        }
        match self.find_asset(asset_code) {
            None => {
                proof {
                    lemma_kv_domain(self.assets@, asset_code);
                }
                return Err(Error::NotFound);
            }
            Some(i) => {
                proof {
                    lemma_kv_get(self.assets@, i as int);
                }
            }
        }
        self.put_listing(asset_code, seller, Listing { amount, price });
        Ok(())
    }

    /// Read `seller`'s standing offer for `asset_code`.
    pub fn get_listing(&self, asset_code: u64, seller: u64) -> (r: Result<Listing, Error>)
        requires
            self.wf(),
        ensures
            match r {
                Ok(l) => self.listing_map().contains_key((asset_code, seller)) && l
                    == self.listing_map()[(asset_code, seller)],
                Err(e) => e == Error::NotFound && !self.listing_map().contains_key(
                    (asset_code, seller),
                ),
            },
    {
        match self.find_listing(asset_code, seller) {
            Some(i) => {
                proof {
                    lemma_kv_get(self.listings@, i as int);
                }
                Ok(self.listings[i].1)
            }
            None => {
                proof {
                    lemma_kv_domain(self.listings@, (asset_code, seller));
                }
                Err(Error::NotFound)
            }
        }
    }

    /// Store `l` as the offer for `(code, seller)`, replacing any prior one.
    fn put_listing(&mut self, code: u64, seller: u64, l: Listing)
        requires
            old(self).wf(),
            l.amount > 0,
            l.price > 0,
            old(self).asset_map().contains_key(code),
        ensures
            final(self).wf(),
            final(self).asset_map() == old(self).asset_map(),
            final(self).xml() == old(self).xml(),
            final(self).listing_map() == old(self).listing_map().insert((code, seller), l),
    {
        let ghost s0 = self.listings@;
        match self.find_listing(code, seller) {
            Some(i) => {
                self.listings[i] = ((code, seller), l);
                proof {
                    lemma_kv_update(s0, i as int, ((code, seller), l));
                }
            }
            None => {
                self.listings.push(((code, seller), l));
                proof {
                    lemma_kv_push(s0, ((code, seller), l));
                    lemma_kv_push_unique(s0, ((code, seller), l));
                }
            }
        }
        proof {
            lemma_book_ok_insert(
                old(self).asset_map(),
                old(self).listing_map(),
                (code, seller),
                l,
            );
        }
    }

    /// Atomically settle a purchase of `amount` units of `asset_code` from
    /// `seller`'s standing offer. The cost is the fixed-point product of
    /// the quantity and the listed unit price — `amount * price / SCALE`,
    /// both factors carrying [`SCALE`](crate::SCALE)ths of a unit —
    /// computed widened so it can never wrap, failing instead exactly when
    /// it leaves the fixed-point range, and bounded by the buyer's
    /// `max_xml` cap.
    ///
    /// On success the book is already reduced (the listing is removed
    /// entirely when its remaining amount reaches zero) and the returned
    /// action names the two pre-authorized pull transfers the host must
    /// perform in the same all-or-nothing transaction. On any error the
    /// state is unchanged and no transfer may be attempted. The host must
    /// prove `buyer` authorized the call before invoking this.
    pub fn buy_with_xml(
        &mut self,
        buyer: u64,
        asset_code: u64,
        seller: u64,
        amount: i128,
        max_xml: i128,
    ) -> (r: Result<BuyAction, Error>)
        requires
            old(self).wf(),
        ensures
            final(self).wf(),
            final(self).asset_map() == old(self).asset_map(),
            final(self).xml() == old(self).xml(),
            (r matches Err(_)) ==> final(self).listing_map() == old(self).listing_map(),
            ({
                let key = (asset_code, seller);
                let book = old(self).listing_map();
                if amount <= 0 {
                    r == Err::<BuyAction, Error>(Error::InvalidArgument)
                } else if !book.contains_key(key) {
                    r == Err::<BuyAction, Error>(Error::NotFound)
                } else if amount > book[key].amount {
                    r == Err::<BuyAction, Error>(Error::InsufficientLiquidity)
                } else if old(self).xml() is None {
                    r == Err::<BuyAction, Error>(Error::NotConfigured)
                } else if cost_of(amount, book[key].price) > i128::MAX as int {
                    r == Err::<BuyAction, Error>(Error::ArithmeticOverflow)
                } else if cost_of(amount, book[key].price) > max_xml {
                    r == Err::<BuyAction, Error>(Error::PriceExceedsCap)
                } else {
                    &&& r == Ok::<BuyAction, Error>(
                        BuyAction {
                            xml_token: old(self).xml()->Some_0,
                            carbon_token: old(self).asset_map()[asset_code].token,
                            buyer: buyer,
                            seller: seller,
                            cost: cost_of(amount, book[key].price) as i128,
                            amount: amount,
                        },
                    )
                    &&& amount < book[key].amount ==> final(self).listing_map() == book.insert(
                        key,
                        (Listing { amount: (book[key].amount - amount) as i128, price: book[key].price }),
                    )
                    &&& amount == book[key].amount ==> final(self).listing_map() == book.remove(key)
                }
            }),
    {
        if amount <= 0 {
            return Err(Error::InvalidArgument);
        }
        let i = match self.find_listing(asset_code, seller) {
            None => {
                proof {
                    lemma_kv_domain(self.listings@, (asset_code, seller));
                }
                return Err(Error::NotFound);
            }
            Some(i) => i,
        };
        proof {
            lemma_kv_get(self.listings@, i as int);
        }
        let listing = self.listings[i].1;
        if amount > listing.amount {
            return Err(Error::InsufficientLiquidity);
        }
        // The book invariant guarantees a listed asset is registered, so
        // this lookup cannot fail.
        let meta = match self.asset_info(asset_code) {
            Ok(m) => m,
            Err(_) => {
                return Err(Error::NotFound);
            }
        };
        let xml_tok = match self.xml_token {
            Some(t) => t,
            None => {
                return Err(Error::NotConfigured);
            }
        };
        let cost = match scaled_cost(amount, listing.price) {
            Some(c) => c,
            None => {
                return Err(Error::ArithmeticOverflow);
            }
        };
        if cost > max_xml {
            return Err(Error::PriceExceedsCap);
        }
        let ghost s0 = self.listings@;
        if amount < listing.amount {
            let updated = Listing { amount: listing.amount - amount, price: listing.price };
            self.listings[i] = ((asset_code, seller), updated);
            proof {
                lemma_kv_update(s0, i as int, ((asset_code, seller), updated));
                lemma_book_ok_insert(
                    old(self).asset_map(),
                    old(self).listing_map(),
                    (asset_code, seller),
                    updated,
                );
            }
        } else {
            self.listings.remove(i);
            proof {
                lemma_kv_remove(s0, i as int);
                lemma_book_ok_remove(
                    old(self).asset_map(),
                    old(self).listing_map(),
                    (asset_code, seller),
                );
            }
        }
        Ok(
            BuyAction {
                xml_token: xml_tok,
                carbon_token: meta.token,
                buyer,
                seller,
                cost,
                amount,
            },
        )
    }

    /// Order the permanent removal of `amount` asset units from `from`'s
    /// balance. Returns the burn action together with the single audit
    /// record to publish once — and only once — the burn has succeeded; a
    /// failed burn must publish nothing. The host must prove `from`
    /// authorized the call.
    pub fn retire(&self, asset_code: u64, from: u64, amount: i128, note: String) -> (r: Result<
        RetireAction,
        Error,
    >)
        requires
            self.wf(),
        ensures
            match r {
                Ok(a) => {
                    &&& self.asset_map().contains_key(asset_code)
                    &&& a.token == self.asset_map()[asset_code].token
                    &&& a.record.asset_code == asset_code
                    &&& a.record.holder == from
                    &&& a.record.amount == amount
                    &&& a.record.project_id == self.asset_map()[asset_code].project_id
                    &&& a.record.vintage_year == self.asset_map()[asset_code].vintage_year
                    &&& a.record.note == note
                },
                Err(e) => e == Error::NotFound && !self.asset_map().contains_key(asset_code),
            },
    {
        match self.asset_info(asset_code) {
            Ok(meta) => Ok(
                RetireAction {
                    token: meta.token,
                    record: CarbonRetireEvent {
                        asset_code,
                        holder: from,
                        amount,
                        project_id: meta.project_id,
                        vintage_year: meta.vintage_year,
                        note,
                    },
                },
            ),
            Err(e) => Err(e),
        }
    }
}

/// The book invariant, visible to callers: in any well-formed state every
/// standing offer is strictly positive — an offer whose amount reaches zero
/// is removed, never stored — and every listed asset code is registered.
pub proof fn lemma_book_invariant(c: CarbonController, key: (u64, u64))
    requires
        c.wf(),
        c.listing_map().contains_key(key),
    ensures
        c.listing_map()[key].amount > 0,
        c.listing_map()[key].price > 0,
        c.asset_map().contains_key(key.0),
{
}

} // verus!
