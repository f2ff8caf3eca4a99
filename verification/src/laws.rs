//! What holds of the aggregator as a whole: statements that relate several
//! of its operations, each proved from the definitions the operations'
//! contracts are written in.

use vstd::prelude::*;
use vstd::arithmetic::div_mod::lemma_div_by_multiple;
use crate::state::{
    lemma_remove_value, oracle_addresses, OracleAggregatorView, PriceSourceView, MAX_ASSETS,
    MAX_BASE_ASSETS, MAX_ORACLES,
};
use crate::errors::OracleAggregatorErrors;
use crate::mock_oracle::MockOracleView;
use crate::price_data::{
    abs_diff, deviation_bound, div_trunc, lemma_div_trunc_bounds, lemma_pow10_positive, pow10,
    rescaled, within_deviation,
};
use crate::resolver::{
    accepted, lemma_supply_bound, look_back, price_at, reads, resolve, scan, Pending, PriceQuery,
    Rounds, Step,
};
use crate::types::{AssetConfigView, AssetView, OracleConfigView, PriceData};

verus! {

/// The decimals that a rescale from `a` to `b` decimals cuts off.
pub open spec fn lost_decimals(a: nat, b: nat) -> nat {
    if a > b {
        (a - b) as nat
    } else {
        0
    }
}

/// Rescaling a price to other decimals and back gives the price again
/// wherever the other decimals are the finer ones. Else it gives a price
/// of the same sign that is no larger, and smaller by less than one unit of
/// the coarser decimals.
pub proof fn lemma_normalize_round_trip(price: int, a: nat, b: nat)
    ensures
        a <= b ==> rescaled(rescaled(price, a, b), b, a) == price,
        price >= 0 ==> 0 <= rescaled(rescaled(price, a, b), b, a) <= price,
        price <= 0 ==> price <= rescaled(rescaled(price, a, b), b, a) <= 0,
        abs_diff(price, rescaled(rescaled(price, a, b), b, a)) < pow10(lost_decimals(a, b)),
{
    if a > b {
        let d = pow10((a - b) as nat);
        lemma_pow10_positive((a - b) as nat);
        lemma_div_trunc_bounds(price, d);
        let cut = div_trunc(price, d);
        assert(cut * d == d * cut) by (nonlinear_arith);
        assert(cut >= 0 ==> cut * d >= 0) by (nonlinear_arith)
            requires
                d > 0,
        ;
        assert(cut <= 0 ==> cut * d <= 0) by (nonlinear_arith)
            requires
                d > 0,
        ;
    } else if a < b {
        let d = pow10((b - a) as nat);
        lemma_pow10_positive((b - a) as nat);
        if price >= 0 {
            assert(price * d >= 0) by (nonlinear_arith)
                requires
                    price >= 0,
                    d > 0,
            ;
            lemma_div_by_multiple(price, d);
        } else {
            assert(price * d < 0) by (nonlinear_arith)
                requires
                    price < 0,
                    d > 0,
            ;
            assert(-(price * d) == (-price) * d) by (nonlinear_arith);
            lemma_div_by_multiple(-price, d);
        }
    } else {
        assert(price * 1 * 1 == price);
    }
}

/// No price that a resolution reports is older than the staleness window.
pub proof fn lemma_resolved_is_fresh(query: PriceQuery, rounds: Rounds, last_timestamp: u64)
    ensures
        resolve(query, rounds, last_timestamp) matches Some(price) ==> price.timestamp
            + query.max_age >= query.now,
{
}

/// Where the asset has no tolerance and the oracle's latest round holds an
/// observation of that second, the observation is reported, in the
/// aggregator's decimals, if it is at most `max_age` seconds old; one
/// second older, nothing is reported.
pub proof fn lemma_staleness_boundary(
    query: PriceQuery,
    rounds: Rounds,
    last_timestamp: u64,
    latest: PriceData,
)
    requires
        !query.checks_deviation(),
        price_at(rounds, last_timestamp as int) == Some(latest),
        latest.timestamp == last_timestamp,
    ensures
        last_timestamp + query.max_age >= query.now ==> resolve(query, rounds, last_timestamp)
            == Some(
            PriceData {
                price: rescaled(
                    latest.price as int,
                    query.oracle_decimals as nat,
                    query.decimals as nat,
                ) as i128,
                timestamp: last_timestamp,
            },
        ),
        last_timestamp + query.max_age < query.now ==> resolve(query, rounds, last_timestamp)
            is None,
{
}

/// A price lies within the tolerance of an older price exactly if a
/// hundred times their distance is at most the older price times the
/// percentage. This fails only where both prices are the same negative
/// amount that, times the percentage, is less than a hundred in size:
/// there the bound is cut off to zero and the price is accepted.
pub proof fn lemma_deviation_percent(price: int, older: int, max_dev: int)
    requires
        max_dev >= 0,
        !(price == older && -100 < older * max_dev < 0),
    ensures
        within_deviation(price, older, max_dev) <==> 100 * abs_diff(price, older) <= older
            * max_dev,
{
    let product = older * max_dev;
    lemma_div_trunc_bounds(product, 100);
    let bound = deviation_bound(older, max_dev);
    if product < 0 {
        assert(bound <= 0);
        if price == older {
            assert(product <= -100);
            assert((-product) / 100 >= 1);
        }
    }
}

/// Where the asset has a tolerance, the oracle's latest round holds the
/// candidate and the round before it an older price, the resolution
/// reports the candidate exactly if it lies within the tolerance of the
/// older price and is not stale.
pub proof fn lemma_deviation_decides(
    query: PriceQuery,
    rounds: Rounds,
    last_timestamp: u64,
    candidate: PriceData,
    older: PriceData,
)
    requires
        query.checks_deviation(),
        query.retry_budget() >= 1,
        last_timestamp >= query.oldest(),
        last_timestamp >= query.resolution,
        price_at(rounds, last_timestamp as int) == Some(candidate),
        candidate.timestamp == last_timestamp,
        price_at(rounds, last_timestamp - query.resolution) == Some(older),
    ensures
        resolve(query, rounds, last_timestamp) == if within_deviation(
            candidate.price as int,
            older.price as int,
            query.max_dev as int,
        ) {
            query.finish(candidate)
        } else {
            None
        },
{
}

/// A resolution never reads more rounds than the bound that its first step
/// carries: those between the oracle's latest round and the staleness
/// window, and the retry budget on top where the asset has a tolerance.
pub proof fn lemma_reads_bounded(step: Step, rounds: Rounds)
    requires
        step.wf(),
    ensures
        reads(step, rounds) <= step.reads_bound(),
    decreases step.reads_bound(),
{
    match step {
        Step::Done(_) => {},
        Step::Fetch(pending) => {
            let reply = price_at(rounds, pending.timestamp as int);
            lemma_supply_bound(pending, reply);
            lemma_reads_bounded(pending.spec_supply(reply), rounds);
        },
    }
}

/// The oracle holds no observation in any round from `t` back to the
/// staleness window of `query`.
pub open spec fn lacks_data(query: PriceQuery, rounds: Rounds, t: u64) -> bool {
    forall|s: u64| query.oldest() <= s <= t ==> !rounds.dom().contains(s)
}

/// Against an oracle without data, the scan for a candidate reads every
/// round between its start and the staleness window.
pub proof fn lemma_reads_without_data(pending: Pending, rounds: Rounds)
    requires
        pending.wf(),
        pending.candidate is None,
        lacks_data(pending.query, rounds, pending.timestamp),
    ensures
        reads(Step::Fetch(pending), rounds) == pending.query.scan_bound(pending.timestamp),
    decreases pending.timestamp,
{
    let query = pending.query;
    let reply = price_at(rounds, pending.timestamp as int);
    assert(reply is None);
    lemma_supply_bound(pending, reply);
    let next = pending.spec_supply(reply);
    let resolution = query.resolution as int;
    let floor: int = if query.oldest() > 0 {
        query.oldest()
    } else {
        0
    };
    let span = pending.timestamp - floor;
    match next {
        Step::Done(_) => {
            assert(reads(next, rounds) == 0);
            if resolution > 0 {
                assert(span / resolution == 0) by (nonlinear_arith)
                    requires
                        0 <= span < resolution,
                ;
            }
        },
        Step::Fetch(earlier) => {
            lemma_reads_without_data(earlier, rounds);
            assert((span - resolution) / resolution == span / resolution - 1) by (nonlinear_arith)
                requires
                    resolution > 0,
            ;
        },
    }
}

/// The number of rounds that a resolution of `query` reads against an
/// oracle that holds `rounds` and has published `last_timestamp` last.
pub open spec fn reads_of(query: PriceQuery, rounds: Rounds, last_timestamp: u64) -> nat {
    reads(query.spec_start(last_timestamp), rounds)
}

/// Of two oracles without data, the one with the longer rounds costs no
/// more reads before the resolution gives up, all else being equal, and
/// strictly fewer wherever fewer of its rounds fit between the latest round
/// and the staleness window.
pub proof fn lemma_reads_scale_with_resolution(
    fine: PriceQuery,
    coarse: PriceQuery,
    fine_rounds: Rounds,
    coarse_rounds: Rounds,
    last_timestamp: u64,
)
    requires
        0 < fine.resolution <= coarse.resolution,
        coarse == (PriceQuery { resolution: coarse.resolution, ..fine }),
        lacks_data(fine, fine_rounds, last_timestamp),
        lacks_data(coarse, coarse_rounds, last_timestamp),
    ensures
        reads_of(coarse, coarse_rounds, last_timestamp) <= reads_of(
            fine,
            fine_rounds,
            last_timestamp,
        ),
        reads_of(fine, fine_rounds, last_timestamp) == fine.scan_bound(last_timestamp),
        reads_of(coarse, coarse_rounds, last_timestamp) == coarse.scan_bound(last_timestamp),
        coarse.scan_bound(last_timestamp) < fine.scan_bound(last_timestamp) ==> reads_of(
            coarse,
            coarse_rounds,
            last_timestamp,
        ) < reads_of(fine, fine_rounds, last_timestamp),
{
    match fine.spec_start(last_timestamp) {
        Step::Fetch(pending) => {
            lemma_reads_without_data(pending, fine_rounds);
        },
        Step::Done(_) => {},
    }
    match coarse.spec_start(last_timestamp) {
        Step::Fetch(pending) => {
            lemma_reads_without_data(pending, coarse_rounds);
        },
        Step::Done(_) => {},
    }
    let floor: int = if fine.oldest() > 0 {
        fine.oldest()
    } else {
        0
    };
    let span = last_timestamp - floor;
    let short = fine.resolution as int;
    let long = coarse.resolution as int;
    if span >= 0 {
        assert(span / long <= span / short) by (nonlinear_arith)
            requires
                0 < short <= long,
                span >= 0,
        ;
    }
}

/// Where no older price turns up, the search for it reads as many rounds
/// as are left of the retry budget.
pub proof fn lemma_reads_without_history(pending: Pending, rounds: Rounds)
    requires
        pending.wf(),
        pending.candidate is Some,
        look_back(
            rounds,
            pending.timestamp as int,
            pending.query.resolution as nat,
            pending.retries as nat,
        ) is None,
        pending.timestamp >= (pending.retries - 1) * pending.query.resolution,
    ensures
        reads(Step::Fetch(pending), rounds) == pending.retries,
    decreases pending.retries,
{
    let reply = price_at(rounds, pending.timestamp as int);
    assert(reply is None);
    lemma_supply_bound(pending, reply);
    let next = pending.spec_supply(reply);
    let resolution = pending.query.resolution as int;
    let left = pending.retries - 1;
    match next {
        Step::Done(_) => {
            assert(reads(next, rounds) == 0);
            if left > 0 {
                assert(left * resolution >= resolution) by (nonlinear_arith)
                    requires
                        left >= 1,
                        resolution >= 0,
                ;
            }
        },
        Step::Fetch(earlier) => {
            assert((left - 1) * resolution == left * resolution - resolution)
                by (nonlinear_arith);
            lemma_reads_without_history(earlier, rounds);
        },
    }
}

/// Against an oracle whose latest round holds a candidate that no older
/// price within the retry budget confirms, a resolution reads the
/// candidate and then the whole retry budget, which is the staleness window
/// divided by the oracle's resolution; only a probe reports the candidate.
pub proof fn lemma_reads_of_unconfirmed(
    query: PriceQuery,
    rounds: Rounds,
    last_timestamp: u64,
    candidate: PriceData,
)
    requires
        query.checks_deviation(),
        last_timestamp >= query.oldest(),
        price_at(rounds, last_timestamp as int) == Some(candidate),
        candidate.timestamp == last_timestamp,
        look_back(
            rounds,
            last_timestamp - query.resolution,
            query.resolution as nat,
            query.retry_budget(),
        ) is None,
        last_timestamp >= query.retry_budget() * query.resolution,
    ensures
        reads_of(query, rounds, last_timestamp) == 1 + query.retry_budget(),
        resolve(query, rounds, last_timestamp) == query.finished(query.unconfirmed(candidate)),
{
    let first = query.spec_start(last_timestamp);
    let pending = first->Fetch_0;
    let reply = price_at(rounds, last_timestamp as int);
    lemma_supply_bound(pending, reply);
    let next = pending.spec_supply(reply);
    let resolution = query.resolution as int;
    let budget = query.retry_budget() as int;
    match next {
        Step::Done(_) => {
            assert(reads(next, rounds) == 0);
            if budget > 0 {
                assert(budget * resolution >= resolution) by (nonlinear_arith)
                    requires
                        budget >= 1,
                        resolution >= 0,
                ;
            }
        },
        Step::Fetch(confirming) => {
            assert((budget - 1) * resolution == budget * resolution - resolution)
                by (nonlinear_arith);
            lemma_reads_without_history(confirming, rounds);
        },
    }
}

/// The retry budget, which bounds the reads in search of an older price,
/// is no larger for the oracle with the longer rounds, and at most the
/// rounds that fit into the staleness window.
pub proof fn lemma_retries_scale_with_resolution(fine: PriceQuery, coarse: PriceQuery)
    requires
        0 < fine.resolution <= coarse.resolution,
        coarse.max_age == fine.max_age,
    ensures
        coarse.retry_budget() <= fine.retry_budget(),
        fine.retry_budget() * fine.resolution <= fine.max_age,
{
    let short = fine.resolution as int;
    let long = coarse.resolution as int;
    let span = fine.max_age as int;
    assert(span / long <= span / short && (span / short) * short <= span) by (nonlinear_arith)
        requires
            0 < short <= long,
            span >= 0,
    ;
}

/// The base asset and every asset pegged to it is priced at one base asset
/// at the current time, whatever the oracles hold and whether or not they
/// can be reached.
pub proof fn lemma_pegged_always_resolves(
    state: OracleAggregatorView,
    feeds: Seq<MockOracleView>,
    asset: AssetView,
    now: u64,
)
    requires
        state.is_pegged(asset),
    ensures
        state.source(asset, now) == Ok::<PriceSourceView, OracleAggregatorErrors>(
            PriceSourceView::Pegged(
                PriceData { price: pow10(state.decimals as nat) as i128, timestamp: now },
            ),
        ),
        state.lastprice(feeds, asset, now) == Ok::<Option<PriceData>, OracleAggregatorErrors>(
            Some(PriceData { price: pow10(state.decimals as nat) as i128, timestamp: now }),
        ),
{
}

/// The oracle of a configured asset is always registered: in a consistent
/// aggregator no read is refused as `OracleNotFound` for want of it, and
/// the oracle that prices the asset is the one at the index that the
/// asset's configuration names.
pub proof fn lemma_configured_oracle_is_registered(
    state: OracleAggregatorView,
    asset: AssetView,
    now: u64,
)
    requires
        state.valid(),
    ensures
        state.source(asset, now) != Err::<PriceSourceView, OracleAggregatorErrors>(
            OracleAggregatorErrors::OracleNotFound,
        ),
        state.source(asset, now) matches Ok(PriceSourceView::Oracle(oracle, config))
            ==> state.config(asset) == Some(config) && oracle.index == config.oracle_index
            && !state.is_blocked(asset) && !state.is_pegged(asset),
        state.source(asset, now) is Ok <==> state.is_pegged(asset) || (state.is_configured(asset)
            && !state.is_blocked(asset)),
{
    state.assets.index_of_first_ensures(asset);
}

/// Once a configured asset is blocked, reading its price is refused as
/// `AssetBlocked`, whatever the oracles hold. Once it is unblocked again,
/// its price is read as if it had never been blocked.
pub proof fn lemma_blocked_never_resolves(
    state: OracleAggregatorView,
    feeds: Seq<MockOracleView>,
    asset: AssetView,
    now: u64,
)
    requires
        state.valid(),
        state.is_configured(asset),
    ensures
        state.with_block(asset, true) is Ok,
        state.with_block(asset, true).unwrap().valid(),
        state.with_block(asset, true).unwrap().lastprice(feeds, asset, now) == Err::<
            Option<PriceData>,
            OracleAggregatorErrors,
        >(OracleAggregatorErrors::AssetBlocked),
        state.with_block(asset, true).unwrap().with_block(asset, false) == state.with_block(
            asset,
            false,
        ),
        !state.is_blocked(asset) ==> state.with_block(asset, false) == Ok::<
            OracleAggregatorView,
            OracleAggregatorErrors,
        >(state),
{
    state.assets.index_of_first_ensures(asset);
    let i = state.assets.index_of_first(asset).unwrap();
    let blocked = state.with_block(asset, true).unwrap();
    assert(state.assets.contains(asset));
    assert(blocked.blocked.update(i, false) =~= state.blocked.update(i, false));
    if !state.is_blocked(asset) {
        assert(state.blocked.update(i, false) =~= state.blocked);
    }
}

/// No asset is both pegged and configured. An asset that is configured is
/// refused as `AssetExists` when it is offered for pegging, and so is a
/// configured asset or the base asset when it is offered for configuration.
pub proof fn lemma_mutual_exclusivity(
    state: OracleAggregatorView,
    asset: AssetView,
    address: Seq<char>,
)
    requires
        state.valid(),
    ensures
        !(state.is_pegged(asset) && state.is_configured(asset)),
        state.is_configured(asset) ==> state.check_base_asset(asset) == Err::<
            (),
            OracleAggregatorErrors,
        >(OracleAggregatorErrors::AssetExists),
        state.is_configured(asset) || asset == state.base ==> state.check_asset(asset, address)
            == Err::<OracleConfigView, OracleAggregatorErrors>(
            OracleAggregatorErrors::AssetExists,
        ),
{
}

/// A pegged asset that is configured is no longer pegged, and a configured
/// asset that is removed is no longer configured: the two never overlap.
pub proof fn lemma_promotion_is_exclusive(
    state: OracleAggregatorView,
    asset: AssetView,
    config: AssetConfigView,
)
    requires
        state.valid(),
        !state.is_configured(asset),
        asset != state.base,
    ensures
        !state.with_asset(asset, config).base_assets.contains(asset),
        state.with_asset(asset, config).is_configured(asset),
{
    lemma_remove_value(state.base_assets, asset);
    let after = state.with_asset(asset, config).assets;
    assert(after[after.len() - 1] == asset);
}

/// A registry at capacity refuses the addition of what it does not hold
/// yet with its own error: an oracle as `MaxOraclesExceeded`, a configured
/// or a pegged asset as `MaxAssetsExceeded`. Nothing is added beyond
/// capacity.
pub proof fn lemma_capacity_is_enforced(
    state: OracleAggregatorView,
    asset: AssetView,
    address: Seq<char>,
)
    requires
        state.valid(),
    ensures
        state.oracles.len() == MAX_ORACLES && !oracle_addresses(state.oracles).contains(address)
            ==> state.check_oracle(address) == Err::<(), OracleAggregatorErrors>(
            OracleAggregatorErrors::MaxOraclesExceeded,
        ),
        state.assets.len() == MAX_ASSETS && !state.is_configured(asset) && asset != state.base
            ==> state.check_asset(asset, address) == Err::<
            OracleConfigView,
            OracleAggregatorErrors,
        >(OracleAggregatorErrors::MaxAssetsExceeded),
        state.base_assets.len() == MAX_BASE_ASSETS && !state.is_pegged(asset)
            && !state.is_configured(asset) ==> state.check_base_asset(asset) == Err::<
            (),
            OracleAggregatorErrors,
        >(OracleAggregatorErrors::MaxAssetsExceeded),
        state.check_oracle(address) is Ok ==> state.oracles.len() < MAX_ORACLES,
        state.check_asset(asset, address) is Ok ==> state.assets.len() < MAX_ASSETS,
        state.check_base_asset(asset) is Ok ==> state.base_assets.len() < MAX_BASE_ASSETS,
{
}

} // verus!
