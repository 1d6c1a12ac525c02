use remit_registries::auth::CallAuths;
use remit_registries::errors::Error;
use remit_registries::rates::{RateInfo, RatesOracle};

fn auth_for(p: u64) -> CallAuths {
    let mut a = CallAuths::new();
    a.grant(p);
    a
}

#[test]
fn rates_flow() {
    let mut oracle = RatesOracle::new();
    let admin: u64 = 1;
    let admin_auth = auth_for(admin);

    oracle.init(admin, &admin_auth).unwrap();
    let pair = "xlm_brl".to_string();
    oracle
        .set_rate(pair.clone(), 123_456_789, 25, &admin_auth)
        .unwrap();
    let r = oracle.get_rate(&pair).unwrap();
    assert_eq!(r.price, 123_456_789);
    assert_eq!(r.fee_bp, 25);
}

#[test]
fn rates_scenario_colon_pair() {
    let mut oracle = RatesOracle::new();
    let admin_auth = auth_for(1);
    oracle.init(1, &admin_auth).unwrap();
    oracle
        .set_rate("XLM:BRL".to_string(), 123456789, 25, &admin_auth)
        .unwrap();
    assert_eq!(
        oracle.get_rate(&"XLM:BRL".to_string()),
        Some(RateInfo { price: 123456789, fee_bp: 25 })
    );
}

#[test]
fn rates_init_twice_fails_and_keeps_admin() {
    let mut oracle = RatesOracle::new();
    let admin_auth = auth_for(1);
    let other_auth = auth_for(5);
    assert_eq!(oracle.init(1, &admin_auth), Ok(()));
    assert_eq!(oracle.init(5, &other_auth), Err(Error::AlreadyInitialized));
    assert_eq!(
        oracle.set_rate("a:b".to_string(), 10, 0, &other_auth),
        Err(Error::Unauthorized)
    );
    assert_eq!(oracle.set_rate("a:b".to_string(), 10, 0, &admin_auth), Ok(()));
}

#[test]
fn rates_set_rate_before_init_fails() {
    let mut oracle = RatesOracle::new();
    assert_eq!(
        oracle.set_rate("a:b".to_string(), 10, 0, &auth_for(1)),
        Err(Error::NotInitialized)
    );
}

#[test]
fn rates_set_rate_unauthorized_leaves_table_unchanged() {
    let mut oracle = RatesOracle::new();
    let admin_auth = auth_for(1);
    oracle.init(1, &admin_auth).unwrap();
    oracle.set_rate("a:b".to_string(), 77, 3, &admin_auth).unwrap();
    assert_eq!(
        oracle.set_rate("a:b".to_string(), 99, 4, &auth_for(5)),
        Err(Error::Unauthorized)
    );
    assert_eq!(
        oracle.get_rate(&"a:b".to_string()),
        Some(RateInfo { price: 77, fee_bp: 3 })
    );
}

#[test]
fn rates_nonpositive_price_rejected_and_prior_rate_kept() {
    let mut oracle = RatesOracle::new();
    let admin_auth = auth_for(1);
    oracle.init(1, &admin_auth).unwrap();
    let pair = "usdc_brl".to_string();
    oracle.set_rate(pair.clone(), 55, 7, &admin_auth).unwrap();
    assert_eq!(
        oracle.set_rate(pair.clone(), 0, 7, &admin_auth),
        Err(Error::InvalidPrice)
    );
    assert_eq!(
        oracle.set_rate(pair.clone(), -5, 7, &admin_auth),
        Err(Error::InvalidPrice)
    );
    assert_eq!(
        oracle.get_rate(&pair),
        Some(RateInfo { price: 55, fee_bp: 7 })
    );
}

#[test]
fn rates_get_rate_absent_is_none() {
    let oracle = RatesOracle::new();
    assert_eq!(oracle.get_rate(&"xlm_brl".to_string()), None);
}

#[test]
fn rates_replace_is_wholesale_and_zero_fee_allowed() {
    let mut oracle = RatesOracle::new();
    let admin_auth = auth_for(1);
    oracle.init(1, &admin_auth).unwrap();
    let pair = "xlm_usd".to_string();
    oracle.set_rate(pair.clone(), 123, 25, &admin_auth).unwrap();
    // fee_bp may be 0 and is not bounded above; the record is replaced whole.
    oracle.set_rate(pair.clone(), 456, 0, &admin_auth).unwrap();
    assert_eq!(
        oracle.get_rate(&pair),
        Some(RateInfo { price: 456, fee_bp: 0 })
    );
    oracle.set_rate(pair.clone(), 789, 20_000, &admin_auth).unwrap();
    assert_eq!(
        oracle.get_rate(&pair),
        Some(RateInfo { price: 789, fee_bp: 20_000 })
    );
}
