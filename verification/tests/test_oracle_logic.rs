use earn_quest::contract::EarnQuestContract;
use earn_quest::errors::Error;
use earn_quest::oracle::Oracle;
use earn_quest::storage::Env;
use earn_quest::types::{OracleConfig, OracleResponse, OracleType, PriceData, PriceFeedRequest};
use earn_quest::u256::{pow10_u32, U256};

fn s(x: &str) -> String {
    String::from(x)
}

fn cfg(addr: &str, t: OracleType, min_confidence: u32, is_active: bool) -> OracleConfig {
    OracleConfig {
        oracle_address: s(addr),
        oracle_type: t,
        max_age_seconds: 300,
        min_confidence,
        is_active,
    }
}

fn request() -> PriceFeedRequest {
    PriceFeedRequest { base_asset: s("CXLM"), quote_asset: s("CUSDC"), max_age_seconds: 300 }
}

fn admin_env() -> Env {
    let mut env = Env::new(10_000, s("CCONTRACT"));
    EarnQuestContract::initialize(&mut env, s("GADMIN"));
    env
}

#[test]
fn single_oracle_prices() {
    let env = Env::new(777, s("CCONTRACT"));
    let pd = Oracle::get_price(&env, &cfg("O1", OracleType::StellarAsset, 80, true), &request()).unwrap();
    assert_eq!(pd.price.to_u128(), Some(1000));
    assert_eq!(pd.confidence, 95);
    assert_eq!(pd.decimals, 7);
    assert_eq!(pd.timestamp, 777);
    assert_eq!(pd.base_asset, "CXLM");
    let pd = Oracle::get_price(&env, &cfg("O2", OracleType::StellarOracle, 80, true), &request()).unwrap();
    assert_eq!(pd.price.to_u128(), Some(1050));
    assert_eq!(pd.confidence, 90);
    let pd = Oracle::get_price(&env, &cfg("O3", OracleType::Custom, 80, true), &request()).unwrap();
    assert_eq!(pd.price.to_u128(), Some(1025));
    assert_eq!(pd.confidence, 85);
    assert_eq!(
        Oracle::get_price(&env, &cfg("O4", OracleType::Custom, 80, false), &request()).err(),
        Some(Error::OracleInactive)
    );
    let h = Oracle::get_historical_price(&env, &cfg("O1", OracleType::StellarAsset, 80, true), &request(), 5)
        .unwrap();
    assert_eq!(h.price.to_u128(), Some(1000));
}

#[test]
fn aggregation_weights_by_minimum_confidence() {
    let env = Env::new(50, s("CCONTRACT"));
    let configs = vec![
        cfg("O1", OracleType::StellarAsset, 80, true),
        cfg("O2", OracleType::StellarOracle, 80, true),
        cfg("O3", OracleType::Custom, 80, true),
    ];
    let a = Oracle::get_aggregated_price(&env, &configs, &request()).unwrap();
    assert_eq!(a.weighted_price.to_u128(), Some(1025));
    assert_eq!(a.sources_used, 3);
    assert_eq!(a.total_sources, 3);
    assert_eq!(a.confidence_score, 90);
    assert_eq!(a.decimals, 7);
    assert_eq!(a.timestamp, 50);

    // (1000 * 10 + 1050 * 30) / 40 = 1037 (rounded down); the custom oracle
    // wants 90 but answers 85, the last is inactive
    let configs = vec![
        cfg("O1", OracleType::StellarAsset, 10, true),
        cfg("O2", OracleType::StellarOracle, 30, true),
        cfg("O3", OracleType::Custom, 90, true),
        cfg("O4", OracleType::Custom, 10, false),
    ];
    let a = Oracle::get_aggregated_price(&env, &configs, &request()).unwrap();
    assert_eq!(a.weighted_price.to_u128(), Some(1037));
    assert_eq!(a.sources_used, 2);
    assert_eq!(a.total_sources, 4);
    assert_eq!(a.confidence_score, 92);
}

#[test]
fn aggregation_errors() {
    let env = Env::new(50, s("CCONTRACT"));
    let none: Vec<OracleConfig> = vec![cfg("O1", OracleType::Custom, 90, true)];
    assert_eq!(
        Oracle::get_aggregated_price(&env, &none, &request()).err(),
        Some(Error::NoValidOracleData)
    );
    let zero = vec![cfg("O1", OracleType::Custom, 0, true), cfg("O2", OracleType::StellarAsset, 0, true)];
    assert_eq!(
        Oracle::get_aggregated_price(&env, &zero, &request()).err(),
        Some(Error::InvalidOracleConfiguration)
    );
}

#[test]
fn config_validation() {
    assert_eq!(Oracle::validate_config(&cfg("O", OracleType::Custom, 100, true)), Ok(()));
    assert_eq!(
        Oracle::validate_config(&cfg("O", OracleType::Custom, 101, true)),
        Err(Error::InvalidOracleConfiguration)
    );
    let mut c = cfg("O", OracleType::Custom, 50, true);
    c.max_age_seconds = 0;
    assert_eq!(Oracle::validate_config(&c), Err(Error::InvalidOracleConfiguration));
}

fn response(base: &str, timestamp: u64, confidence: u32) -> OracleResponse {
    OracleResponse {
        price_data: PriceData {
            base_asset: s(base),
            quote_asset: s("CUSDC"),
            price: U256::from_u32(1),
            decimals: 7,
            timestamp,
            confidence,
        },
        oracle_address: s("O1"),
        response_timestamp: timestamp,
    }
}

#[test]
fn response_validation() {
    let env = Env::new(1_000, s("CCONTRACT"));
    assert_eq!(Oracle::validate_response(&env, &response("CXLM", 700, 50), &request()), Ok(()));
    assert_eq!(
        Oracle::validate_response(&env, &response("CBTC", 700, 50), &request()),
        Err(Error::OracleResponseMismatch)
    );
    assert_eq!(
        Oracle::validate_response(&env, &response("CXLM", 699, 50), &request()),
        Err(Error::StaleOracleData)
    );
    assert_eq!(
        Oracle::validate_response(&env, &response("CXLM", 900, 101), &request()),
        Err(Error::InvalidOracleData)
    );
}

#[test]
fn normalize_between_precisions() {
    let p = U256::from_u128(1234);
    assert_eq!(Oracle::normalize_price(U256::from_u128(1234), 7, 7).unwrap().to_u128(), Some(1234));
    let up = Oracle::normalize_price(p, 7, 9).unwrap();
    assert_eq!(up.to_u128(), Some(123_400));
    let back = Oracle::normalize_price(up, 9, 7).unwrap();
    assert_eq!(back.to_u128(), Some(1234));
    assert_eq!(
        Oracle::normalize_price(U256::from_u128(123_456), 9, 7).unwrap().to_u128(),
        Some(1234)
    );
    assert_eq!(pow10_u32(0), 1);
    assert_eq!(pow10_u32(9), 1_000_000_000);
}

#[test]
fn wide_arithmetic() {
    let big = U256::from_u128(u128::MAX);
    let sq = big.mul_u128(u128::MAX);
    assert_eq!(sq.to_u128(), None);
    let (hh, hl, lh, ll) = sq.words();
    // (2^128 - 1)^2 = 2^256 - 2^129 + 1
    assert_eq!((hh, hl, lh, ll), (u64::MAX, u64::MAX - 1, 0, 1));
    let q = sq.div_u64(u64::MAX);
    let (_, _, _, _) = q.words();
    let x = U256::from_words(0, 1, 0, 0);
    assert_eq!(x.div_u64(2).words(), (0, 0, 1u64 << 63, 0));
    assert_eq!(U256::from_u32(5).add(&U256::from_u32(7)).to_u128(), Some(12));
    assert!(U256::from_u32(5).equals(&U256::from_u128(5)));
    assert!(!U256::from_u32(5).equals(&U256::from_u128(6)));
    assert_eq!(U256::from_u128(1u128 << 100).mul_u64(8).to_u128(), Some(1u128 << 103));
}

#[test]
fn oracle_management_is_admin_only() {
    let mut env = admin_env();
    let c = cfg("O1", OracleType::StellarAsset, 80, true);
    assert_eq!(EarnQuestContract::add_oracle(&mut env, s("GX"), c.clone()), Err(Error::Unauthorized));
    assert_eq!(
        EarnQuestContract::add_oracle(&mut env, s("GADMIN"), cfg("O1", OracleType::Custom, 120, true)),
        Err(Error::InvalidOracleConfiguration)
    );
    assert_eq!(EarnQuestContract::add_oracle(&mut env, s("GADMIN"), c.clone()), Ok(()));
    assert_eq!(
        EarnQuestContract::add_oracle(&mut env, s("GADMIN"), c.clone()),
        Err(Error::OracleAlreadyExists)
    );
    assert_eq!(
        EarnQuestContract::update_oracle(&mut env, s("GADMIN"), cfg("O9", OracleType::Custom, 80, true)),
        Err(Error::OracleNotFound)
    );
    assert_eq!(
        EarnQuestContract::update_oracle(&mut env, s("GADMIN"), cfg("O1", OracleType::Custom, 80, false)),
        Ok(())
    );
    assert_eq!(EarnQuestContract::get_oracle_configs(&env).len(), 1);
    assert!(EarnQuestContract::get_active_oracle_configs(&env).is_empty());
    assert_eq!(
        EarnQuestContract::get_price_from_oracle(&env, s("O1"), s("CXLM"), s("CUSDC"), 300).err(),
        Some(Error::OracleInactive)
    );
    assert_eq!(
        EarnQuestContract::get_price_from_oracle(&env, s("O2"), s("CXLM"), s("CUSDC"), 300).err(),
        Some(Error::OracleNotFound)
    );
    assert_eq!(
        EarnQuestContract::remove_oracle(&mut env, s("GADMIN"), s("O2")),
        Err(Error::OracleNotFound)
    );
    assert_eq!(EarnQuestContract::remove_oracle(&mut env, s("GADMIN"), s("O1")), Ok(()));
    assert!(EarnQuestContract::get_oracle_configs(&env).is_empty());
}

#[test]
fn prices_and_conversion_use_active_oracles() {
    let mut env = admin_env();
    assert_eq!(
        EarnQuestContract::get_price(&env, s("CXLM"), s("CUSDC"), 300).err(),
        Some(Error::NoValidOracleData)
    );
    assert_eq!(
        EarnQuestContract::convert_reward_amount(&env, s("CXLM"), s("CUSDC"), 5).err(),
        Some(Error::NoValidOracleData)
    );
    assert_eq!(EarnQuestContract::convert_reward_amount(&env, s("CXLM"), s("CXLM"), -5), Ok(-5));
    EarnQuestContract::add_oracle(&mut env, s("GADMIN"), cfg("O1", OracleType::StellarAsset, 80, true))
        .unwrap();
    EarnQuestContract::add_oracle(&mut env, s("GADMIN"), cfg("O2", OracleType::StellarOracle, 80, true))
        .unwrap();
    EarnQuestContract::add_oracle(&mut env, s("GADMIN"), cfg("O3", OracleType::Custom, 80, false))
        .unwrap();
    let a = EarnQuestContract::get_price(&env, s("CXLM"), s("CUSDC"), 300).unwrap();
    assert_eq!(a.weighted_price.to_u128(), Some(1025));
    assert_eq!(a.total_sources, 2);
    let pd = EarnQuestContract::get_price_from_oracle(&env, s("O2"), s("CXLM"), s("CUSDC"), 300).unwrap();
    assert_eq!(pd.price.to_u128(), Some(1050));
    // 1_000_000_000 * 1025 / 10^7 = 102_500
    assert_eq!(
        EarnQuestContract::convert_reward_amount(&env, s("CXLM"), s("CUSDC"), 1_000_000_000),
        Ok(102_500)
    );
    // a negative amount is read as its unsigned 128-bit value
    let expected = ((u128::MAX as u128 / 10_000_000) * 1025
        + (u128::MAX % 10_000_000) * 1025 / 10_000_000) as i128;
    assert_eq!(
        EarnQuestContract::convert_reward_amount(&env, s("CXLM"), s("CUSDC"), -1),
        Ok(expected)
    );
    assert_eq!(
        EarnQuestContract::validate_reward_amount_with_oracle(&env, s("CXLM"), 10, s("CUSDC"), 5),
        Ok(())
    );
}
