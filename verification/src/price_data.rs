use vstd::prelude::*;
use vstd::arithmetic::div_mod::{lemma_basic_div, lemma_div_denominator};
use crate::mock_oracle::MockOracle;
use crate::resolver::{
    lemma_start_tracks, lemma_supply_tracks, query_of, resolvable, resolve, PriceQuery, Step,
};
use crate::types::{Asset, AssetConfig, OracleConfig, PriceData};

verus! {

/// Ten to the power `n`.
pub open spec fn pow10(n: nat) -> int
    decreases n,
{
    if n == 0 {
        1
    } else {
        10 * pow10((n - 1) as nat)
    }
}

/// `a / b` rounded toward zero, for a positive `b`.
pub open spec fn div_trunc(a: int, b: int) -> int
    recommends
        b > 0,
{
    if a >= 0 {
        a / b
    } else {
        -((-a) / b)
    }
}

/// A fixed-point amount of `from` decimals, written with `to` decimals.
/// Digits that `to` cannot hold are cut off, toward zero.
pub open spec fn rescaled(price: int, from: nat, to: nat) -> int {
    if from > to {
        div_trunc(price, pow10((from - to) as nat))
    } else {
        price * pow10((to - from) as nat)
    }
}

/// The rescaled amount fits the machine type of prices.
pub open spec fn can_rescale(price: i128, from: u32, to: u32) -> bool {
    i128::MIN <= rescaled(price as int, from as nat, to as nat) <= i128::MAX
}

pub proof fn lemma_pow10_positive(n: nat)
    ensures
        pow10(n) >= 1,
    decreases n,
{
    if n > 0 {
        lemma_pow10_positive((n - 1) as nat);
    }
}

pub proof fn lemma_pow10_increases(a: nat, b: nat)
    requires
        a <= b,
    ensures
        1 <= pow10(a) <= pow10(b),
    decreases b,
{
    lemma_pow10_positive(a);
    if a < b {
        lemma_pow10_increases(a, (b - 1) as nat);
    }
}

/// One unit at the most decimals that a price can hold.
pub proof fn lemma_pow10_limit()
    ensures
        pow10(38) == 100000000000000000000000000000000000000,
        pow10(38) <= i128::MAX,
{
    assert(pow10(10) == 10000000000) by {
        reveal_with_fuel(pow10, 11);
    }
    assert(pow10(20) == 100000000000000000000) by {
        lemma_pow10_adds(10, 10);
    }
    assert(pow10(30) == 1000000000000000000000000000000) by {
        lemma_pow10_adds(20, 10);
    }
    assert(pow10(8) == 100000000) by {
        reveal_with_fuel(pow10, 9);
    }
    lemma_pow10_adds(30, 8);
}

pub proof fn lemma_pow10_adds(a: nat, b: nat)
    ensures
        pow10(a + b) == pow10(a) * pow10(b),
    decreases b,
{
    if b == 0 {
        assert(pow10(a) * 1 == pow10(a));
    } else {
        lemma_pow10_adds(a, (b - 1) as nat);
        assert(pow10(a) * (10 * pow10((b - 1) as nat)) == 10 * (pow10(a) * pow10((b - 1) as nat)))
            by (nonlinear_arith);
    }
}

/// Cutting digits never grows an amount and never changes its sign.
pub proof fn lemma_div_trunc_bounds(a: int, b: int)
    requires
        b > 0,
    ensures
        a >= 0 ==> 0 <= div_trunc(a, b) <= a,
        a <= 0 ==> a <= div_trunc(a, b) <= 0,
        a - b < b * div_trunc(a, b) < a + b,
        a >= 0 ==> b * div_trunc(a, b) <= a,
        a <= 0 ==> b * div_trunc(a, b) >= a,
{
    let m = if a >= 0 { a } else { -a };
    let q = m / b;
    assert(0 <= q <= m && b * q <= m < b * q + b) by (nonlinear_arith)
        requires
            m >= 0,
            b > 0,
            q == m / b,
    ;
    if a < 0 {
        assert(b * (-q) == -(b * q)) by (nonlinear_arith);
    }
}

proof fn lemma_div_trunc_step(x: int, c: int)
    requires
        c > 0,
    ensures
        div_trunc(div_trunc(x, c), 10) == div_trunc(x, c * 10),
{
    let m = if x >= 0 { x } else { -x };
    lemma_div_denominator(m, c, 10);
    assert(m / c >= 0) by (nonlinear_arith)
        requires
            m >= 0,
            c > 0,
    ;
}

proof fn lemma_div_trunc_vanishes(x: int, c: int, d: int)
    requires
        0 < c <= d,
        div_trunc(x, c) == 0,
    ensures
        div_trunc(x, d) == 0,
{
    let m = if x >= 0 { x } else { -x };
    assert(m < c) by (nonlinear_arith)
        requires
            m >= 0,
            c > 0,
            m / c == 0,
    ;
    lemma_basic_div(m, d);
}

proof fn lemma_overflow_persists(x: int, c: int, d: int, lo: int, hi: int)
    requires
        0 < c <= d,
        lo <= 0 <= hi,
        !(lo <= x * c <= hi),
    ensures
        !(lo <= x * d <= hi),
{
    assert(x >= 0 ==> x * d >= x * c) by (nonlinear_arith)
        requires
            0 < c <= d,
    ;
    assert(x <= 0 ==> x * d <= x * c) by (nonlinear_arith)
        requires
            0 < c <= d,
    ;
    assert(x >= 0 ==> x * c >= 0) by (nonlinear_arith)
        requires
            0 < c,
    ;
    assert(x <= 0 ==> x * c <= 0) by (nonlinear_arith)
        requires
            0 < c,
    ;
}

/// Rescales `price` from `from_decimals` to `to_decimals`, or reports that
/// the result does not fit.
pub fn checked_normalize(price: i128, from_decimals: u32, to_decimals: u32) -> (scaled: Option<
    i128,
>)
    ensures
        scaled is Some <==> can_rescale(price, from_decimals, to_decimals),
        scaled matches Some(v) ==> v == rescaled(
            price as int,
            from_decimals as nat,
            to_decimals as nat,
        ),
{
    if from_decimals > to_decimals {
        let diff: u32 = from_decimals - to_decimals;
        let mut acc: i128 = price;
        let mut i: u32 = 0;
        while i < diff && acc != 0
            invariant
                i <= diff,
                acc == div_trunc(price as int, pow10(i as nat)),
            decreases diff - i,
        {
            proof {
                lemma_pow10_positive(i as nat);
                lemma_div_trunc_step(price as int, pow10(i as nat));
                assert(pow10((i + 1) as nat) == pow10(i as nat) * 10);
            }
            acc = acc / 10;
            i = i + 1;
        }
        proof {
            if i < diff {
                lemma_pow10_increases(i as nat, diff as nat);
                lemma_div_trunc_vanishes(price as int, pow10(i as nat), pow10(diff as nat));
            }
        }
        Some(acc)
    } else {
        let diff: u32 = to_decimals - from_decimals;
        if price == 0 {
            assert(0 * pow10(diff as nat) == 0) by (nonlinear_arith);
            return Some(0);
        }
        let mut acc: i128 = price;
        let mut i: u32 = 0;
        while i < diff
            invariant
                i <= diff,
                from_decimals <= to_decimals,
                diff == to_decimals - from_decimals,
                acc == price * pow10(i as nat),
            decreases diff - i,
        {
            proof {
                assert(pow10((i + 1) as nat) == pow10(i as nat) * 10);
                assert(price * (pow10(i as nat) * 10) == (price * pow10(i as nat)) * 10)
                    by (nonlinear_arith);
            }
            match acc.checked_mul(10) {
                Some(next) => {
                    acc = next;
                },
                None => {
                    proof {
                        assert(acc * 10 == price * pow10((i + 1) as nat));
                        lemma_pow10_increases((i + 1) as nat, diff as nat);
                        lemma_overflow_persists(
                            price as int,
                            pow10((i + 1) as nat),
                            pow10(diff as nat),
                            i128::MIN as int,
                            i128::MAX as int,
                        );
                    }
                    return None;
                },
            }
            i = i + 1;
        }
        Some(acc)
    }
}

/// Rescales `price` from `from_decimals` to `to_decimals`.
pub fn normalize(price: i128, from_decimals: u32, to_decimals: u32) -> (scaled: i128)
    requires
        can_rescale(price, from_decimals, to_decimals),
    ensures
        scaled == rescaled(price as int, from_decimals as nat, to_decimals as nat),
{
    match checked_normalize(price, from_decimals, to_decimals) {
        Some(scaled) => scaled,
        None => price,
    }
}

/// Puts the price of an observation from the oracle's decimals into
/// `decimals`. The timestamp stays.
pub fn normalize_price(price_data: &mut PriceData, decimals: &u32, oracle_decimals: &u32)
    requires
        can_rescale(old(price_data).price, *oracle_decimals, *decimals),
    ensures
        final(price_data).timestamp == old(price_data).timestamp,
        final(price_data).price == rescaled(
            old(price_data).price as int,
            *oracle_decimals as nat,
            *decimals as nat,
        ),
{
    price_data.price = normalize(price_data.price, *oracle_decimals, *decimals);
}

/// The distance between two amounts.
pub open spec fn abs_diff(a: int, b: int) -> int {
    if a >= b {
        a - b
    } else {
        b - a
    }
}

/// The largest distance from `older` that `max_dev` percent allow: the
/// percentage of `older`, with the fraction cut off.
pub open spec fn deviation_bound(older: int, max_dev: int) -> int {
    div_trunc(older * max_dev, 100)
}

/// `price` lies within `max_dev` percent of `older`.
pub open spec fn within_deviation(price: int, older: int, max_dev: int) -> bool {
    abs_diff(price, older) <= deviation_bound(older, max_dev)
}

fn magnitude(x: i128) -> (m: u128)
    requires
        x < 0,
    ensures
        m == -x,
{
    (-(x + 1)) as u128 + 1
}

fn gap(high: i128, low: i128) -> (d: u128)
    requires
        low <= high,
    ensures
        d == high - low,
{
    if low >= 0 || high < 0 {
        (high - low) as u128
    } else {
        high as u128 + magnitude(low)
    }
}

/// Whether `price` moved at most `max_dev` percent away from `older`. Both
/// amounts are in the same decimals.
pub fn check_deviation(price: i128, older: i128, max_dev: u32) -> (ok: bool)
    ensures
        ok == within_deviation(price as int, older as int, max_dev as int),
{
    let percent: u128 = max_dev as u128;
    if older > 0 {
        let delta: u128 = if price >= older {
            gap(price, older)
        } else {
            gap(older, price)
        };
        let base: u128 = older as u128;
        let hundreds: u128 = base / 100;
        let rest: u128 = base % 100;
        proof {
            assert(rest * percent <= 99 * 0x1_0000_0000) by (nonlinear_arith)
                requires
                    0 <= rest <= 99,
                    0 <= percent <= 0x1_0000_0000,
            ;
            assert(older * max_dev == 100 * (hundreds * percent) + rest * percent)
                by (nonlinear_arith)
                requires
                    older == 100 * hundreds + rest,
                    percent == max_dev,
            ;
            assert(older * max_dev >= 0 && rest * percent >= 0) by (nonlinear_arith)
                requires
                    older > 0,
                    max_dev >= 0,
                    rest >= 0,
                    percent >= 0,
            ;
        }
        let part: u128 = (rest * percent) / 100;
        match hundreds.checked_mul(percent) {
            Some(whole) => match whole.checked_add(part) {
                Some(bound) => delta <= bound,
                None => true,
            },
            None => true,
        }
    } else if price != older {
        proof {
            assert(older * max_dev <= 0) by (nonlinear_arith)
                requires
                    older <= 0,
                    max_dev >= 0,
            ;
            lemma_div_trunc_bounds(older * max_dev, 100);
        }
        false
    } else if older == 0 {
        assert(0 * max_dev == 0) by (nonlinear_arith);
        true
    } else {
        let size: u128 = magnitude(older);
        proof {
            assert((-older) * max_dev == -(older * max_dev)) by (nonlinear_arith);
            assert(older * max_dev <= 0) by (nonlinear_arith)
                requires
                    older <= 0,
                    max_dev >= 0,
            ;
            if size >= 100 && max_dev >= 1 {
                assert(size * max_dev >= 100) by (nonlinear_arith)
                    requires
                        size >= 100,
                        max_dev >= 1,
                ;
            }
            if max_dev == 0 {
                assert(size * 0 == 0) by (nonlinear_arith);
            }
        }
        if percent == 0 {
            true
        } else if size >= 100 {
            false
        } else {
            assert(size * percent <= 100 * 0x1_0000_0000) by (nonlinear_arith)
                requires
                    0 <= size <= 100,
                    0 <= percent <= 0x1_0000_0000,
            ;
            size * percent < 100
        }
    }
}

/// Runs a resolution of `query` for `asset` against `feed` to its end, or
/// to the point where a price overflows.
fn run_checked(feed: &MockOracle, asset: &Asset, query: PriceQuery) -> (price: Option<
    Option<PriceData>,
>)
    requires
        feed.wf(),
    ensures
        price is Some <==> resolvable(query, feed@.rounds(asset@), feed@.last_timestamp),
        price matches Some(found) ==> found == resolve(
            query,
            feed@.rounds(asset@),
            feed@.last_timestamp,
        ),
{
    let ghost rounds = feed@.rounds(asset@);
    let ghost last = feed@.last_timestamp;
    let mut step = query.start(feed.last_timestamp());
    proof {
        lemma_start_tracks(query, rounds, last);
    }
    loop
        invariant
            feed.wf(),
            rounds == feed@.rounds(asset@),
            last == feed@.last_timestamp,
            step.tracks(query, rounds, last),
            step is Done ==> resolvable(query, rounds, last),
        decreases step.reads_bound(),
    {
        match step {
            Step::Done(price) => {
                return Some(price);
            },
            Step::Fetch(pending) => {
                let reply = feed.price(asset, pending.timestamp);
                proof {
                    lemma_supply_tracks(pending, query, rounds, last);
                }
                if !pending.admits_reply(&reply) {
                    return None;
                }
                step = pending.supply(reply);
            },
        }
    }
}

/// Runs a resolution of `query` for `asset` against `feed` to its end.
fn run(feed: &MockOracle, asset: &Asset, query: PriceQuery) -> (price: Option<PriceData>)
    requires
        feed.wf(),
        resolvable(query, feed@.rounds(asset@), feed@.last_timestamp),
    ensures
        price == resolve(query, feed@.rounds(asset@), feed@.last_timestamp),
{
    match run_checked(feed, asset, query) {
        Some(price) => price,
        None => None,
    }
}

/// As [`get_price`], for any observations: `None` where the price that the
/// resolution settles on overflows when it is put into `decimals`.
pub fn checked_get_price(
    feed: &MockOracle,
    oracle: &OracleConfig,
    config: &AssetConfig,
    decimals: u32,
    max_age: u64,
    now: u64,
) -> (price: Option<Option<PriceData>>)
    requires
        feed.wf(),
    ensures
        price is Some <==> resolvable(
            query_of(oracle@, config@, decimals, max_age, now, false),
            feed@.rounds(config.asset@),
            feed@.last_timestamp,
        ),
        price matches Some(found) ==> found == resolve(
            query_of(oracle@, config@, decimals, max_age, now, false),
            feed@.rounds(config.asset@),
            feed@.last_timestamp,
        ),
{
    run_checked(feed, &config.asset, PriceQuery::new(oracle, config, decimals, max_age, now))
}

/// As [`probe_price`], for any observations: `None` where the price that
/// the resolution settles on overflows when it is put into `decimals`.
pub fn checked_probe_price(
    feed: &MockOracle,
    oracle: &OracleConfig,
    config: &AssetConfig,
    decimals: u32,
    max_age: u64,
    now: u64,
) -> (price: Option<Option<PriceData>>)
    requires
        feed.wf(),
    ensures
        price is Some <==> resolvable(
            query_of(oracle@, config@, decimals, max_age, now, true),
            feed@.rounds(config.asset@),
            feed@.last_timestamp,
        ),
        price matches Some(found) ==> found == resolve(
            query_of(oracle@, config@, decimals, max_age, now, true),
            feed@.rounds(config.asset@),
            feed@.last_timestamp,
        ),
{
    run_checked(feed, &config.asset, PriceQuery::probe(oracle, config, decimals, max_age, now))
}

/// Resolves the price of an asset of `config` against `feed`, the oracle
/// that `oracle` describes: the latest observation within `max_age` of
/// `now`, confirmed by an older one where the asset has a tolerance, in
/// `decimals`. `None` where the oracle offers no such observation.
pub fn get_price(
    feed: &MockOracle,
    oracle: &OracleConfig,
    config: &AssetConfig,
    decimals: u32,
    max_age: u64,
    now: u64,
) -> (price: Option<PriceData>)
    requires
        feed.wf(),
        resolvable(
            query_of(oracle@, config@, decimals, max_age, now, false),
            feed@.rounds(config.asset@),
            feed@.last_timestamp,
        ),
    ensures
        price == resolve(
            query_of(oracle@, config@, decimals, max_age, now, false),
            feed@.rounds(config.asset@),
            feed@.last_timestamp,
        ),
{
    run(feed, &config.asset, PriceQuery::new(oracle, config, decimals, max_age, now))
}

/// As [`get_price`], for an asset that is about to be configured: where the
/// oracle has no older observation yet to confirm the latest one, the
/// latest one is taken unconfirmed.
pub fn probe_price(
    feed: &MockOracle,
    oracle: &OracleConfig,
    config: &AssetConfig,
    decimals: u32,
    max_age: u64,
    now: u64,
) -> (price: Option<PriceData>)
    requires
        feed.wf(),
        resolvable(
            query_of(oracle@, config@, decimals, max_age, now, true),
            feed@.rounds(config.asset@),
            feed@.last_timestamp,
        ),
    ensures
        price == resolve(
            query_of(oracle@, config@, decimals, max_age, now, true),
            feed@.rounds(config.asset@),
            feed@.last_timestamp,
        ),
{
    run(feed, &config.asset, PriceQuery::probe(oracle, config, decimals, max_age, now))
}

} // verus!
