//! Oracle price feeds and their aggregation.
//!
//! Each kind of oracle answers with its own fixed price and confidence,
//! stamped with the current ledger time. Aggregation keeps the answers of
//! active oracles whose confidence reaches the oracle's minimum and returns
//! their average weighted by those minimums.

use vstd::prelude::*;

use crate::errors::Error;
use crate::storage::Env;
use crate::types::{AggregatedPrice, OracleConfig, OracleResponse, OracleType, PriceData, PriceFeedRequest};
use crate::u256::{lemma_pow10_monotone, limit_u256, pow10, pow10_u32, U256};

verus! {

/// Oracle module for decentralized price feeds
pub struct Oracle;

/// The price that an oracle of this kind reports.
pub open spec fn mock_price(t: OracleType) -> nat {
    match t {
        OracleType::StellarAsset => 1000,
        OracleType::StellarOracle => 1050,
        OracleType::Custom => 1025,
    }
}

/// The confidence that an oracle of this kind reports.
pub open spec fn mock_confidence(t: OracleType) -> u32 {
    match t {
        OracleType::StellarAsset => 95,
        OracleType::StellarOracle => 90,
        OracleType::Custom => 85,
    }
}

/// The answer of an active oracle to a request, at ledger time `now`.
pub open spec fn price_answer(now: u64, c: OracleConfig, request: PriceFeedRequest, pd: PriceData) -> bool {
    &&& pd.base_asset == request.base_asset
    &&& pd.quote_asset == request.quote_asset
    &&& pd.price@ == mock_price(c.oracle_type)
    &&& pd.decimals == 7
    &&& pd.timestamp == now
    &&& pd.confidence == mock_confidence(c.oracle_type)
}

/// An oracle's answer counts in an aggregate: the oracle is active and its
/// answer is as confident as the oracle's minimum. (Answers are stamped with
/// the current time, so they are always fresh.)
pub open spec fn accepted(c: OracleConfig) -> bool {
    c.is_active && mock_confidence(c.oracle_type) >= c.min_confidence
}

/// The number of accepted oracles.
pub open spec fn accepted_count(s: Seq<OracleConfig>) -> nat
    decreases s.len(),
{
    if s.len() == 0 {
        0
    } else {
        accepted_count(s.drop_last()) + if accepted(s.last()) {
            1nat
        } else {
            0nat
        }
    }
}

/// The sum of the weights (minimum confidences) of the accepted oracles.
pub open spec fn accepted_weight(s: Seq<OracleConfig>) -> nat
    decreases s.len(),
{
    if s.len() == 0 {
        0
    } else {
        accepted_weight(s.drop_last()) + if accepted(s.last()) {
            s.last().min_confidence as nat
        } else {
            0nat
        }
    }
}

/// The sum of the accepted prices, each times its weight.
pub open spec fn accepted_weighted_price(s: Seq<OracleConfig>) -> nat
    decreases s.len(),
{
    if s.len() == 0 {
        0
    } else {
        accepted_weighted_price(s.drop_last()) + if accepted(s.last()) {
            mock_price(s.last().oracle_type) * (s.last().min_confidence as nat)
        } else {
            0nat
        }
    }
}

/// The sum of the confidences of the accepted answers.
pub open spec fn accepted_confidence(s: Seq<OracleConfig>) -> nat
    decreases s.len(),
{
    if s.len() == 0 {
        0
    } else {
        accepted_confidence(s.drop_last()) + if accepted(s.last()) {
            mock_confidence(s.last().oracle_type) as nat
        } else {
            0nat
        }
    }
}

/// Aggregating these oracles keeps every counter within a `u32`.
pub open spec fn aggregation_fits(s: Seq<OracleConfig>) -> bool {
    &&& s.len() <= u32::MAX
    &&& accepted_weight(s) <= u32::MAX
    &&& accepted_confidence(s) <= u32::MAX
}

/// The aggregate of these oracles' answers to a request at ledger time `now`.
pub open spec fn aggregate_of(
    now: u64,
    s: Seq<OracleConfig>,
    request: PriceFeedRequest,
    a: AggregatedPrice,
) -> bool {
    &&& a.base_asset == request.base_asset
    &&& a.quote_asset == request.quote_asset
    &&& a.weighted_price@ == accepted_weighted_price(s) / accepted_weight(s)
    &&& a.decimals == 7
    &&& a.sources_used == accepted_count(s)
    &&& a.total_sources == s.len()
    &&& a.confidence_score == accepted_confidence(s) / accepted_count(s)
    &&& a.timestamp == now
}

/// The outcome of aggregating: no accepted answer, accepted answers whose
/// weights are all zero, or the aggregate.
pub open spec fn aggregation_error(s: Seq<OracleConfig>) -> Option<Error> {
    if accepted_count(s) == 0 {
        Some(Error::NoValidOracleData)
    } else if accepted_weight(s) == 0 {
        Some(Error::InvalidOracleConfiguration)
    } else {
        None
    }
}

/// Sum of the weights of a list of answers.
pub open spec fn weight_total(s: Seq<(PriceData, u32)>) -> nat
    decreases s.len(),
{
    if s.len() == 0 {
        0
    } else {
        weight_total(s.drop_last()) + (s.last().1 as nat)
    }
}

/// Sum of the prices of a list of answers, each times its weight.
pub open spec fn weighted_total(s: Seq<(PriceData, u32)>) -> nat
    decreases s.len(),
{
    if s.len() == 0 {
        0
    } else {
        weighted_total(s.drop_last()) + s.last().0.price@ * (s.last().1 as nat)
    }
}

/// Sum of the confidences of a list of answers.
pub open spec fn confidence_total(s: Seq<(PriceData, u32)>) -> nat
    decreases s.len(),
{
    if s.len() == 0 {
        0
    } else {
        confidence_total(s.drop_last()) + (s.last().0.confidence as nat)
    }
}

/// The configuration rules: answers may not be ageless, and a minimum
/// confidence is a percentage.
pub open spec fn config_valid(c: OracleConfig) -> bool {
    c.max_age_seconds != 0 && c.min_confidence <= 100
}

/// The first check that an oracle response fails against a request, if any.
pub open spec fn response_error(now: u64, response: OracleResponse, request: PriceFeedRequest) -> Option<
    Error,
> {
    if response.price_data.base_asset@ != request.base_asset@ || response.price_data.quote_asset@
        != request.quote_asset@ {
        Some(Error::OracleResponseMismatch)
    } else if now - response.price_data.timestamp > request.max_age_seconds {
        Some(Error::StaleOracleData)
    } else if response.price_data.confidence > 100 {
        Some(Error::InvalidOracleData)
    } else {
        None
    }
}

/// The price converted from `from` decimals to `to` decimals.
pub open spec fn normalized(price: nat, from: u32, to: u32) -> nat {
    if from == to {
        price
    } else if from > to {
        price / pow10((from - to) as nat)
    } else {
        price * pow10((to - from) as nat)
    }
}

/// A conversion between these precisions can be carried out.
pub open spec fn normalize_fits(price: nat, from: u32, to: u32) -> bool {
    &&& from > to ==> from - to <= 9
    &&& from < to ==> to - from <= 9 && price * pow10((to - from) as nat) < limit_u256()
}

proof fn lemma_accepted_bounds(s: Seq<OracleConfig>)
    ensures
        accepted_weight(s) <= 95 * accepted_count(s),
        accepted_confidence(s) <= 95 * accepted_count(s),
        accepted_count(s) <= s.len(),
        1000 * accepted_weight(s) <= accepted_weighted_price(s) <= 1050 * accepted_weight(s),
    decreases s.len(),
{
    if s.len() > 0 {
        lemma_accepted_bounds(s.drop_last());
        let c = s.last();
        if accepted(c) {
            assert(1000 * c.min_confidence <= mock_price(c.oracle_type) * c.min_confidence <= 1050
                * c.min_confidence) by (nonlinear_arith)
                requires
                    1000 <= mock_price(c.oracle_type) <= 1050,
            ;
        }
    }
}

/// The weighted price of an aggregate lies between the lowest and the highest
/// price an oracle reports.
pub proof fn lemma_aggregate_price_within_sources(s: Seq<OracleConfig>)
    requires
        accepted_weight(s) > 0,
    ensures
        1000 <= accepted_weighted_price(s) / accepted_weight(s) <= 1050,
{
    lemma_accepted_bounds(s);
    let w = accepted_weight(s);
    let p = accepted_weighted_price(s);
    assert(1000 <= p / w <= 1050) by (nonlinear_arith)
        requires
            w > 0,
            1000 * w <= p <= 1050 * w,
    {
        assert(p / w >= 1000) by {
            vstd::arithmetic::div_mod::lemma_div_is_ordered((1000 * w) as int, p as int, w as int);
            vstd::arithmetic::div_mod::lemma_div_multiples_vanish(1000, w as int);
        }
        assert(p / w <= 1050) by {
            vstd::arithmetic::div_mod::lemma_div_is_ordered(p as int, (1050 * w) as int, w as int);
            vstd::arithmetic::div_mod::lemma_div_multiples_vanish(1050, w as int);
        }
    }
}

/// The confidence of an aggregate is the average of at most 95 per answer.
pub proof fn lemma_aggregate_confidence_bounded(s: Seq<OracleConfig>)
    requires
        accepted_count(s) > 0,
    ensures
        85 <= accepted_confidence(s) / accepted_count(s) <= 95,
{
    lemma_confidence_floor(s);
    lemma_accepted_bounds(s);
    let n = accepted_count(s);
    let c = accepted_confidence(s);
    assert(85 <= c / n <= 95) by {
        vstd::arithmetic::div_mod::lemma_div_is_ordered((85 * n) as int, c as int, n as int);
        vstd::arithmetic::div_mod::lemma_div_multiples_vanish(85, n as int);
        vstd::arithmetic::div_mod::lemma_div_is_ordered(c as int, (95 * n) as int, n as int);
        vstd::arithmetic::div_mod::lemma_div_multiples_vanish(95, n as int);
    }
}

proof fn lemma_confidence_floor(s: Seq<OracleConfig>)
    ensures
        85 * accepted_count(s) <= accepted_confidence(s),
    decreases s.len(),
{
    if s.len() > 0 {
        lemma_confidence_floor(s.drop_last());
    }
}

impl Oracle {
    /// Whether aggregating these oracles keeps every counter within a `u32`.
    pub fn aggregation_fits(oracle_configs: &Vec<OracleConfig>) -> (r: bool)
        ensures
            r == aggregation_fits(oracle_configs@),
    {
        let n = oracle_configs.len();
        if n > u32::MAX as usize {
            return false;
        }
        let mut weight: u64 = 0;
        let mut confidence: u64 = 0;
        let mut i: usize = 0;
        while i < n
            invariant
                n == oracle_configs@.len(),
                n <= u32::MAX,
                i <= n,
                weight == accepted_weight(oracle_configs@.take(i as int)),
                confidence == accepted_confidence(oracle_configs@.take(i as int)),
                weight <= i * 0xffff_ffffu64,
                confidence <= i * 95,
            decreases n - i,
        {
            let c = &oracle_configs[i];
            proof {
                let t = oracle_configs@.take(i + 1);
                assert(t.drop_last() =~= oracle_configs@.take(i as int));
                assert(t.last() == oracle_configs@[i as int]);
                assert((i + 1) * 0xffff_ffffu64 == i * 0xffff_ffffu64 + 0xffff_ffffu64) by (nonlinear_arith);
                assert(i * 0xffff_ffffu64 <= 0xffff_ffffu64 * 0xffff_ffffu64) by (nonlinear_arith)
                    requires i <= 0xffff_ffffu64;
            }
            let confident = match c.oracle_type {
                OracleType::StellarAsset => 95u32,
                OracleType::StellarOracle => 90u32,
                OracleType::Custom => 85u32,
            };
            if c.is_active && confident >= c.min_confidence {
                weight = weight + c.min_confidence as u64;
                confidence = confidence + confident as u64;
            }
            i = i + 1;
        }
        proof {
            assert(oracle_configs@.take(n as int) =~= oracle_configs@);
        }
        weight <= u32::MAX as u64 && confidence <= u32::MAX as u64
    }

    /// Get price from a single oracle
    pub fn get_price(env: &Env, oracle_config: &OracleConfig, request: &PriceFeedRequest) -> (r:
        Result<PriceData, Error>)
        ensures
            !oracle_config.is_active ==> r == Err::<PriceData, Error>(Error::OracleInactive),
            oracle_config.is_active ==> (r matches Ok(pd) && price_answer(
                env@.now,
                *oracle_config,
                *request,
                pd,
            )),
    {
        if !oracle_config.is_active {
            return Err(Error::OracleInactive);
        }
        match oracle_config.oracle_type {
            OracleType::StellarAsset => Self::get_stellar_asset_price(env, oracle_config, request),
            OracleType::StellarOracle => Self::get_stellar_oracle_price(env, oracle_config, request),
            OracleType::Custom => Self::get_custom_oracle_price(env, oracle_config, request),
        }
    }

    /// Answers from the current time with a price, its decimals and confidence.
    fn answer(env: &Env, request: &PriceFeedRequest, price: u32, confidence: u32) -> (r: PriceData)
        ensures
            r.base_asset == request.base_asset,
            r.quote_asset == request.quote_asset,
            r.price@ == price,
            r.decimals == 7,
            r.timestamp == env@.now,
            r.confidence == confidence,
    {
        PriceData {
            base_asset: request.base_asset.clone(),
            quote_asset: request.quote_asset.clone(),
            price: U256::from_u32(price),
            decimals: 7,
            timestamp: env.timestamp(),
            confidence,
        }
    }

    /// Get price from Stellar Asset oracle
    fn get_stellar_asset_price(env: &Env, oracle_config: &OracleConfig, request: &PriceFeedRequest) -> (r:
        Result<PriceData, Error>)
        requires
            oracle_config.oracle_type == OracleType::StellarAsset,
        ensures
            r matches Ok(pd) && price_answer(env@.now, *oracle_config, *request, pd),
    {
        Ok(Self::answer(env, request, 1000, 95))
    }

    /// Get price from Stellar Oracle contract
    fn get_stellar_oracle_price(env: &Env, oracle_config: &OracleConfig, request: &PriceFeedRequest) -> (r:
        Result<PriceData, Error>)
        requires
            oracle_config.oracle_type == OracleType::StellarOracle,
        ensures
            r matches Ok(pd) && price_answer(env@.now, *oracle_config, *request, pd),
    {
        Ok(Self::answer(env, request, 1050, 90))
    }

    /// Get price from custom oracle implementation
    fn get_custom_oracle_price(env: &Env, oracle_config: &OracleConfig, request: &PriceFeedRequest) -> (r:
        Result<PriceData, Error>)
        requires
            oracle_config.oracle_type == OracleType::Custom,
        ensures
            r matches Ok(pd) && price_answer(env@.now, *oracle_config, *request, pd),
    {
        Ok(Self::answer(env, request, 1025, 85))
    }

    /// Get aggregated price from multiple oracles
    pub fn get_aggregated_price(
        env: &Env,
        oracle_configs: &Vec<OracleConfig>,
        request: &PriceFeedRequest,
    ) -> (r: Result<AggregatedPrice, Error>)
        requires
            aggregation_fits(oracle_configs@),
        ensures
            aggregation_error(oracle_configs@) matches Some(e) ==> r == Err::<
                AggregatedPrice,
                Error,
            >(e),
            aggregation_error(oracle_configs@) is None ==> (r matches Ok(a) && aggregate_of(
                env@.now,
                oracle_configs@,
                *request,
                a,
            )),
    {
        let mut valid_prices: Vec<(PriceData, u32)> = Vec::new();
        let mut total_sources: u32 = 0;
        let mut i: usize = 0;
        while i < oracle_configs.len()
            invariant
                aggregation_fits(oracle_configs@),
                i <= oracle_configs@.len(),
                total_sources == i,
                valid_prices@.len() == accepted_count(oracle_configs@.take(i as int)),
                weight_total(valid_prices@) == accepted_weight(oracle_configs@.take(i as int)),
                weighted_total(valid_prices@) == accepted_weighted_price(
                    oracle_configs@.take(i as int),
                ),
                confidence_total(valid_prices@) == accepted_confidence(
                    oracle_configs@.take(i as int),
                ),
            decreases oracle_configs@.len() - i,
        {
            let config = &oracle_configs[i];
            proof {
                let t = oracle_configs@.take(i + 1);
                assert(t.drop_last() =~= oracle_configs@.take(i as int));
                assert(t.last() == oracle_configs@[i as int]);
            }
            total_sources = total_sources + 1;
            if let Ok(price_data) = Self::get_price(env, config, request) {
                let current_time = env.timestamp();
                if current_time - price_data.timestamp <= config.max_age_seconds {
                    if price_data.confidence >= config.min_confidence {
                        let ghost before = valid_prices@;
                        valid_prices.push((price_data, config.min_confidence));
                        proof {
                            assert(valid_prices@.drop_last() =~= before);
                        }
                    }
                }
            }
            i = i + 1;
        }
        proof {
            assert(oracle_configs@.take(i as int) =~= oracle_configs@);
        }
        if valid_prices.len() == 0 {
            return Err(Error::NoValidOracleData);
        }
        proof {
            lemma_accepted_bounds(oracle_configs@);
            assert(weighted_total(valid_prices@) < limit_u256()) by (nonlinear_arith)
                requires
                    weighted_total(valid_prices@) <= 1050 * weight_total(valid_prices@),
                    weight_total(valid_prices@) <= u32::MAX,
            ;
        }
        Self::calculate_weighted_average(env, &valid_prices, total_sources, request)
    }

    /// Calculate weighted average of multiple price sources
    fn calculate_weighted_average(
        env: &Env,
        valid_prices: &Vec<(PriceData, u32)>,
        total_sources: u32,
        request: &PriceFeedRequest,
    ) -> (r: Result<AggregatedPrice, Error>)
        requires
            valid_prices@.len() <= u32::MAX,
            weight_total(valid_prices@) <= u32::MAX,
            confidence_total(valid_prices@) <= u32::MAX,
            weighted_total(valid_prices@) < limit_u256(),
        ensures
            weight_total(valid_prices@) == 0 ==> r == Err::<AggregatedPrice, Error>(
                Error::InvalidOracleConfiguration,
            ),
            weight_total(valid_prices@) > 0 ==> (r matches Ok(a) && {
                &&& a.base_asset == request.base_asset
                &&& a.quote_asset == request.quote_asset
                &&& a.weighted_price@ == weighted_total(valid_prices@) / weight_total(
                    valid_prices@,
                )
                &&& a.decimals == 7
                &&& a.sources_used == valid_prices@.len()
                &&& a.total_sources == total_sources
                &&& a.confidence_score == confidence_total(valid_prices@) / valid_prices@.len()
                &&& a.timestamp == env@.now
            }),
    {
        let mut weighted_sum = U256::from_u32(0);
        let mut total_weight: u32 = 0;
        let mut confidence_sum: u32 = 0;
        let mut i: usize = 0;
        while i < valid_prices.len()
            invariant
                i <= valid_prices@.len(),
                weight_total(valid_prices@) <= u32::MAX,
                confidence_total(valid_prices@) <= u32::MAX,
                weighted_total(valid_prices@) < limit_u256(),
                total_weight == weight_total(valid_prices@.take(i as int)),
                confidence_sum == confidence_total(valid_prices@.take(i as int)),
                weighted_sum@ == weighted_total(valid_prices@.take(i as int)),
            decreases valid_prices@.len() - i,
        {
            let (price_data, weight) = &valid_prices[i];
            proof {
                let t = valid_prices@.take(i + 1);
                assert(t.drop_last() =~= valid_prices@.take(i as int));
                lemma_totals_monotone(valid_prices@, i + 1);
            }
            let term = price_data.price.mul_u64(*weight as u64);
            weighted_sum = weighted_sum.add(&term);
            total_weight = total_weight + *weight;
            confidence_sum = confidence_sum + price_data.confidence;
            i = i + 1;
        }
        proof {
            assert(valid_prices@.take(i as int) =~= valid_prices@);
        }
        if total_weight == 0 {
            return Err(Error::InvalidOracleConfiguration);
        }
        proof {
            if valid_prices@.len() == 0 {
                assert(weight_total(valid_prices@) == 0);
            }
        }
        let weighted_price = weighted_sum.div_u64(total_weight as u64);
        let avg_confidence = confidence_sum / (valid_prices.len() as u32);
        Ok(
            AggregatedPrice {
                base_asset: request.base_asset.clone(),
                quote_asset: request.quote_asset.clone(),
                weighted_price,
                decimals: 7,
                sources_used: valid_prices.len() as u32,
                total_sources,
                confidence_score: avg_confidence,
                timestamp: env.timestamp(),
            },
        )
    }

    /// Validate oracle configuration
    pub fn validate_config(config: &OracleConfig) -> (r: Result<(), Error>)
        ensures
            r is Ok <==> config_valid(*config),
            r matches Err(e) ==> e == Error::InvalidOracleConfiguration,
    {
        if config.max_age_seconds == 0 {
            return Err(Error::InvalidOracleConfiguration);
        }
        if config.min_confidence > 100 {
            return Err(Error::InvalidOracleConfiguration);
        }
        Ok(())
    }

    /// Check if oracle response is valid
    pub fn validate_response(env: &Env, response: &OracleResponse, request: &PriceFeedRequest) -> (r:
        Result<(), Error>)
        requires
            response.price_data.base_asset@ == request.base_asset@
                && response.price_data.quote_asset@ == request.quote_asset@
                ==> response.price_data.timestamp <= env@.now,
        ensures
            r is Ok <==> response_error(env@.now, *response, *request) is None,
            r matches Err(e) ==> response_error(env@.now, *response, *request) == Some(e),
    {
        if response.price_data.base_asset != request.base_asset
            || response.price_data.quote_asset != request.quote_asset {
            return Err(Error::OracleResponseMismatch);
        }
        let current_time = env.timestamp();
        if current_time - response.price_data.timestamp > request.max_age_seconds {
            return Err(Error::StaleOracleData);
        }
        if response.price_data.confidence > 100 {
            return Err(Error::InvalidOracleData);
        }
        Ok(())
    }

    /// Convert price between different decimal precisions
    pub fn normalize_price(price: U256, from_decimals: u32, to_decimals: u32) -> (r: Result<
        U256,
        Error,
    >)
        requires
            normalize_fits(price@, from_decimals, to_decimals),
        ensures
            r matches Ok(p) && p@ == normalized(price@, from_decimals, to_decimals),
    {
        if from_decimals == to_decimals {
            return Ok(price);
        }
        if from_decimals > to_decimals {
            let diff = from_decimals - to_decimals;
            let factor = pow10_u32(diff);
            proof {
                lemma_pow10_monotone(0, diff as nat);
            }
            Ok(price.div_u64(factor as u64))
        } else {
            let diff = to_decimals - from_decimals;
            let factor = pow10_u32(diff);
            Ok(price.mul_u64(factor as u64))
        }
    }

    /// Get historical price data (if available); answers with the current
    /// price.
    pub fn get_historical_price(
        env: &Env,
        oracle_config: &OracleConfig,
        request: &PriceFeedRequest,
        timestamp: u64,
    ) -> (r: Result<PriceData, Error>)
        ensures
            !oracle_config.is_active ==> r == Err::<PriceData, Error>(Error::OracleInactive),
            oracle_config.is_active ==> (r matches Ok(pd) && price_answer(
                env@.now,
                *oracle_config,
                *request,
                pd,
            )),
    {
        Self::get_price(env, oracle_config, request)
    }
}

proof fn lemma_totals_monotone(s: Seq<(PriceData, u32)>, n: int)
    requires
        0 <= n <= s.len(),
    ensures
        weight_total(s.take(n)) <= weight_total(s),
        confidence_total(s.take(n)) <= confidence_total(s),
        weighted_total(s.take(n)) <= weighted_total(s),
    decreases s.len(),
{
    if n < s.len() {
        assert(s.drop_last().take(n) =~= s.take(n));
        lemma_totals_monotone(s.drop_last(), n);
    } else {
        assert(s.take(n) =~= s);
    }
}

} // verus!
