use carbon_controller::{BuyAction, CarbonController, Error, Listing, MintAction, SCALE};

const VCS001: u64 = 1;
const ADMIN_A1: u64 = 100;
const ISSUER_I1: u64 = 200;
const BUYER_B1: u64 = 300;
const CARBON_TOKEN: u64 = 10;
const XML_TOKEN: u64 = 55;

/// 2.0000000 settlement units per whole asset unit, in the 7-decimal scale.
const PRICE_2: i128 = 2 * SCALE;

fn engine_with_asset() -> CarbonController {
    let mut c = CarbonController::new();
    c.register_asset(VCS001, 7, 2023, CARBON_TOKEN, ADMIN_A1);
    c.set_xml_token(ADMIN_A1, XML_TOKEN);
    c
}

#[test]
fn lookup_after_register_returns_last_written() {
    let mut c = CarbonController::new();
    c.register_asset(VCS001, 7, 2023, CARBON_TOKEN, ADMIN_A1);
    let meta = c.asset_info(VCS001).unwrap();
    assert_eq!(meta.project_id, 7);
    assert_eq!(meta.vintage_year, 2023);
    assert_eq!(meta.token, CARBON_TOKEN);
    assert_eq!(meta.admin, ADMIN_A1);

    // Re-registration overwrites: only the last write is visible.
    c.register_asset(VCS001, 8, 2024, CARBON_TOKEN + 1, ADMIN_A1 + 1);
    c.register_asset(VCS001, 9, 2025, CARBON_TOKEN + 2, ADMIN_A1 + 2);
    let meta = c.asset_info(VCS001).unwrap();
    assert_eq!(meta.project_id, 9);
    assert_eq!(meta.vintage_year, 2025);
    assert_eq!(meta.token, CARBON_TOKEN + 2);
    assert_eq!(meta.admin, ADMIN_A1 + 2);
}

#[test]
fn asset_info_unregistered_fails() {
    let c = CarbonController::new();
    assert_eq!(c.asset_info(VCS001), Err(Error::NotFound));
}

#[test]
fn mint_action_names_registered_admin_and_ledger() {
    let c = engine_with_asset();
    let a = c.mint_to_issuer(VCS001, ISSUER_I1, 1000 * SCALE).unwrap();
    assert_eq!(
        a,
        MintAction {
            token: CARBON_TOKEN,
            admin: ADMIN_A1,
            recipient: ISSUER_I1,
            amount: 1000 * SCALE,
        }
    );
}

#[test]
fn mint_unregistered_fails() {
    let c = CarbonController::new();
    assert_eq!(c.mint_to_issuer(VCS001, ISSUER_I1, 1), Err(Error::NotFound));
}

#[test]
fn list_asset_rejects_non_positive_amount_or_price() {
    let mut c = engine_with_asset();
    c.list_asset(ISSUER_I1, VCS001, 7, 3).unwrap();

    // Each rejected call leaves the book exactly as it was.
    assert_eq!(c.list_asset(ISSUER_I1, VCS001, 0, 5), Err(Error::InvalidArgument));
    assert_eq!(c.list_asset(ISSUER_I1, VCS001, -4, 5), Err(Error::InvalidArgument));
    assert_eq!(c.list_asset(ISSUER_I1, VCS001, 5, 0), Err(Error::InvalidArgument));
    assert_eq!(c.list_asset(ISSUER_I1, VCS001, 5, -1), Err(Error::InvalidArgument));
    assert_eq!(c.get_listing(VCS001, ISSUER_I1), Ok(Listing { amount: 7, price: 3 }));

    // A non-positive amount or price always fails with InvalidArgument,
    // even when the asset is not registered at all.
    let mut fresh = CarbonController::new();
    assert_eq!(fresh.list_asset(ISSUER_I1, VCS001, 0, 5), Err(Error::InvalidArgument));
    assert_eq!(fresh.list_asset(ISSUER_I1, VCS001, 5, -1), Err(Error::InvalidArgument));
    assert_eq!(fresh.get_listing(VCS001, ISSUER_I1), Err(Error::NotFound));
}

#[test]
fn list_asset_unregistered_fails() {
    let mut c = CarbonController::new();
    assert_eq!(c.list_asset(ISSUER_I1, VCS001, 5, 5), Err(Error::NotFound));
    assert_eq!(c.get_listing(VCS001, ISSUER_I1), Err(Error::NotFound));
}

#[test]
fn list_asset_last_write_wins() {
    let mut c = engine_with_asset();
    c.list_asset(ISSUER_I1, VCS001, 500 * SCALE, PRICE_2).unwrap();
    // No merge with the prior remaining amount.
    c.list_asset(ISSUER_I1, VCS001, 40, 9).unwrap();
    assert_eq!(c.get_listing(VCS001, ISSUER_I1), Ok(Listing { amount: 40, price: 9 }));
}

#[test]
fn buy_partial_fill_reduces_listing() {
    let mut c = engine_with_asset();
    c.list_asset(ISSUER_I1, VCS001, 500 * SCALE, PRICE_2).unwrap();
    c.buy_with_xml(BUYER_B1, VCS001, ISSUER_I1, 180 * SCALE, i128::MAX).unwrap();
    assert_eq!(
        c.get_listing(VCS001, ISSUER_I1),
        Ok(Listing { amount: 320 * SCALE, price: PRICE_2 })
    );
}

#[test]
fn buy_exact_fill_removes_listing() {
    let mut c = engine_with_asset();
    c.list_asset(ISSUER_I1, VCS001, 500 * SCALE, PRICE_2).unwrap();
    c.buy_with_xml(BUYER_B1, VCS001, ISSUER_I1, 500 * SCALE, i128::MAX).unwrap();
    assert_eq!(c.get_listing(VCS001, ISSUER_I1), Err(Error::NotFound));
}

#[test]
fn buy_more_than_listed_fails_and_changes_nothing() {
    let mut c = engine_with_asset();
    c.list_asset(ISSUER_I1, VCS001, 500 * SCALE, PRICE_2).unwrap();
    assert_eq!(
        c.buy_with_xml(BUYER_B1, VCS001, ISSUER_I1, 500 * SCALE + 1, i128::MAX),
        Err(Error::InsufficientLiquidity)
    );
    assert_eq!(
        c.get_listing(VCS001, ISSUER_I1),
        Ok(Listing { amount: 500 * SCALE, price: PRICE_2 })
    );
}

#[test]
fn buy_non_positive_amount_fails() {
    let mut c = engine_with_asset();
    c.list_asset(ISSUER_I1, VCS001, 500 * SCALE, PRICE_2).unwrap();
    assert_eq!(
        c.buy_with_xml(BUYER_B1, VCS001, ISSUER_I1, 0, i128::MAX),
        Err(Error::InvalidArgument)
    );
    assert_eq!(
        c.buy_with_xml(BUYER_B1, VCS001, ISSUER_I1, -3, i128::MAX),
        Err(Error::InvalidArgument)
    );
    assert_eq!(
        c.get_listing(VCS001, ISSUER_I1),
        Ok(Listing { amount: 500 * SCALE, price: PRICE_2 })
    );
}

#[test]
fn buy_without_listing_fails() {
    let mut c = engine_with_asset();
    assert_eq!(
        c.buy_with_xml(BUYER_B1, VCS001, ISSUER_I1, 5, i128::MAX),
        Err(Error::NotFound)
    );
}

#[test]
fn buy_without_settlement_currency_fails() {
    let mut c = CarbonController::new();
    c.register_asset(VCS001, 7, 2023, CARBON_TOKEN, ADMIN_A1);
    c.list_asset(ISSUER_I1, VCS001, 500 * SCALE, PRICE_2).unwrap();
    assert_eq!(
        c.buy_with_xml(BUYER_B1, VCS001, ISSUER_I1, 5, i128::MAX),
        Err(Error::NotConfigured)
    );
    assert_eq!(
        c.get_listing(VCS001, ISSUER_I1),
        Ok(Listing { amount: 500 * SCALE, price: PRICE_2 })
    );
}

#[test]
fn buy_overflowing_cost_fails_before_any_transfer() {
    // 4.0000000 units at the largest representable unit price: the cost,
    // four times i128::MAX, leaves the fixed-point range.
    let mut c = engine_with_asset();
    c.list_asset(ISSUER_I1, VCS001, 4 * SCALE, i128::MAX).unwrap();
    assert_eq!(
        c.buy_with_xml(BUYER_B1, VCS001, ISSUER_I1, 4 * SCALE, i128::MAX),
        Err(Error::ArithmeticOverflow)
    );
    assert_eq!(
        c.get_listing(VCS001, ISSUER_I1),
        Ok(Listing { amount: 4 * SCALE, price: i128::MAX })
    );
}

#[test]
fn buy_succeeds_where_only_the_raw_product_overflows() {
    // 0.0000002 units at the largest representable unit price: the raw
    // product amount * price wraps i128, but the fixed-point cost fits and
    // the sale must go through at exactly that cost.
    let mut c = engine_with_asset();
    c.list_asset(ISSUER_I1, VCS001, 4 * SCALE, i128::MAX).unwrap();
    let action = c
        .buy_with_xml(BUYER_B1, VCS001, ISSUER_I1, 2, i128::MAX)
        .unwrap();
    // floor(2 * i128::MAX / 10^7)
    assert_eq!(action.cost, 34_028_236_692_093_846_346_337_460_743_176);
    assert_eq!(
        c.get_listing(VCS001, ISSUER_I1),
        Ok(Listing { amount: 4 * SCALE - 2, price: i128::MAX })
    );
}

#[test]
fn buy_cost_rounds_down() {
    // 0.0000003 units at 2.5000000 each: the exact cost 0.00000075 rounds
    // down to 0.0000007.
    let mut c = engine_with_asset();
    c.list_asset(ISSUER_I1, VCS001, 3, 25_000_000).unwrap();
    let action = c.buy_with_xml(BUYER_B1, VCS001, ISSUER_I1, 3, i128::MAX).unwrap();
    assert_eq!(action.cost, 7);
    assert_eq!(c.get_listing(VCS001, ISSUER_I1), Err(Error::NotFound));
}

#[test]
fn buy_cost_is_the_fixed_point_product() {
    // 1.5000000 units at 2.5000000 each cost exactly 3.7500000.
    let mut c = engine_with_asset();
    c.list_asset(ISSUER_I1, VCS001, 15_000_000, 25_000_000).unwrap();
    let action = c
        .buy_with_xml(BUYER_B1, VCS001, ISSUER_I1, 15_000_000, i128::MAX)
        .unwrap();
    assert_eq!(action.cost, 37_500_000);
}

#[test]
fn buy_over_the_cap_fails_and_changes_nothing() {
    let mut c = engine_with_asset();
    c.list_asset(ISSUER_I1, VCS001, 500 * SCALE, PRICE_2).unwrap();
    // 100 units at 2.0 each cost 200.0; a cap a hair below fails…
    assert_eq!(
        c.buy_with_xml(BUYER_B1, VCS001, ISSUER_I1, 100 * SCALE, 200 * SCALE - 1),
        Err(Error::PriceExceedsCap)
    );
    assert_eq!(
        c.get_listing(VCS001, ISSUER_I1),
        Ok(Listing { amount: 500 * SCALE, price: PRICE_2 })
    );
    // …and the cap itself is still acceptable.
    assert!(c.buy_with_xml(BUYER_B1, VCS001, ISSUER_I1, 100 * SCALE, 200 * SCALE).is_ok());
}

#[test]
fn buy_scenario_settles_at_listed_price() {
    // Asset registered with admin A1; A1 mints 1000.0000000 units to issuer
    // I1; I1 lists 500.0000000 at 2.0000000 each; B1 buys 200.0000000 under
    // a 450.0000000 cap: cost 400.0000000 and 300.0000000 remain listed.
    let mut c = engine_with_asset();
    let mint = c.mint_to_issuer(VCS001, ISSUER_I1, 1000 * SCALE).unwrap();
    assert_eq!(mint.amount, 10_000_000_000);
    assert_eq!(mint.recipient, ISSUER_I1);
    c.list_asset(ISSUER_I1, VCS001, 500 * SCALE, PRICE_2).unwrap();
    let action = c
        .buy_with_xml(BUYER_B1, VCS001, ISSUER_I1, 200 * SCALE, 450 * SCALE)
        .unwrap();
    assert_eq!(
        action,
        BuyAction {
            xml_token: XML_TOKEN,
            carbon_token: CARBON_TOKEN,
            buyer: BUYER_B1,
            seller: ISSUER_I1,
            cost: 4_000_000_000,
            amount: 2_000_000_000,
        }
    );
    assert_eq!(
        c.get_listing(VCS001, ISSUER_I1),
        Ok(Listing { amount: 3_000_000_000, price: PRICE_2 })
    );
}

#[test]
fn retire_returns_one_record_matching_the_burn() {
    let c = engine_with_asset();
    let a = c
        .retire(VCS001, ISSUER_I1, 250 * SCALE, String::from("vintage batch"))
        .unwrap();
    assert_eq!(a.token, CARBON_TOKEN);
    assert_eq!(a.record.asset_code, VCS001);
    assert_eq!(a.record.holder, ISSUER_I1);
    assert_eq!(a.record.amount, 250 * SCALE);
    assert_eq!(a.record.project_id, 7);
    assert_eq!(a.record.vintage_year, 2023);
    assert_eq!(a.record.note, String::from("vintage batch"));
}

#[test]
fn retire_unregistered_fails_with_no_record() {
    let c = CarbonController::new();
    assert!(matches!(
        c.retire(VCS001, ISSUER_I1, 1, String::from("x")),
        Err(Error::NotFound)
    ));
}
