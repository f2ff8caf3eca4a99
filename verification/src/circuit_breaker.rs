use vstd::prelude::*;
use crate::price_data::{abs_diff, div_trunc};
use crate::types::PriceData;

verus! {

/// Why a call on the circuit breaker was refused.
#[derive(Copy, Clone, Debug, PartialEq, Eq, Structural)]
pub enum CircuitBreakerErrors {
    /// The breaker of the asset is tripped and its timeout has not passed.
    CircuitBreakerTripped,
    /// The earlier of two observations is not the earlier one.
    InvalidTimestamp,
}

impl CircuitBreakerErrors {
    /// The number under which the error kind is reported to a caller.
    pub open spec fn spec_code(self) -> u32 {
        match self {
            CircuitBreakerErrors::CircuitBreakerTripped => 104,
            CircuitBreakerErrors::InvalidTimestamp => 106,
        }
    }

    #[verifier::when_used_as_spec(spec_code)]
    pub fn code(self) -> (c: u32)
        ensures
            c == self.spec_code(),
    {
        match self {
            CircuitBreakerErrors::CircuitBreakerTripped => 104,
            CircuitBreakerErrors::InvalidTimestamp => 106,
        }
    }
}

/// The settings of a breaker that trips on the velocity of a price: how
/// fast it moves between two observations.
#[derive(Copy, Clone, Debug, PartialEq, Eq, Structural)]
pub struct CircuitBreaker {
    /// Whether tripped breakers refuse reads.
    pub enabled: bool,
    /// The largest velocity that does not trip the breaker.
    pub velocity_threshold: u32,
    /// Seconds that a tripped breaker stays tripped.
    pub timeout: u64,
}

/// The breaker of one asset.
#[derive(Copy, Clone, Debug, PartialEq, Eq, Structural)]
pub struct BreakerStatus {
    /// Whether the breaker is tripped.
    pub tripped: bool,
    /// The second at which a tripped breaker gives way again.
    pub until: u64,
}

/// `a / b` rounded toward zero, for any `b` but zero.
pub open spec fn quotient(a: int, b: int) -> int
    recommends
        b != 0,
{
    if b > 0 {
        div_trunc(a, b)
    } else {
        -div_trunc(a, -b)
    }
}

/// The move from `prev_price` to `price` in hundredths of a percent of
/// `prev_price`, with the fraction cut off.
pub open spec fn price_delta(price: int, prev_price: int) -> int {
    quotient(abs_diff(price, prev_price) * 10000, prev_price)
}

/// The velocity of the move between two observations: its price delta times
/// ten thousand, per second between them, with the fraction cut off.
pub open spec fn velocity(price: PriceData, prev_price: PriceData) -> int {
    quotient(
        price_delta(price.price as int, prev_price.price as int) * 10000,
        price.timestamp - prev_price.timestamp,
    )
}

/// The velocity can be computed in the machine type of prices: the earlier
/// price is not zero, and neither the distance of the two prices nor its
/// multiples overflow.
pub open spec fn velocity_fits(price: PriceData, prev_price: PriceData) -> bool {
    &&& prev_price.price != 0
    &&& abs_diff(price.price as int, prev_price.price as int) * 10000 <= i128::MAX
    &&& i128::MIN <= price_delta(price.price as int, prev_price.price as int) * 10000
        <= i128::MAX
}

/// The velocity trips a breaker with this threshold. Of the velocity, only
/// what 32 bits hold is held against the threshold.
pub open spec fn exceeds(velocity: int, threshold: u32) -> bool {
    velocity % 0x1_0000_0000 > threshold
}

/// What becomes of the breaker of an asset when the move between two of its
/// observations is examined at `now`.
pub open spec fn examined(
    breaker: CircuitBreaker,
    status: BreakerStatus,
    now: u64,
    price: PriceData,
    prev_price: PriceData,
) -> BreakerStatus {
    if prev_price.timestamp < price.timestamp && exceeds(
        velocity(price, prev_price),
        breaker.velocity_threshold,
    ) {
        BreakerStatus { tripped: true, until: (now + breaker.timeout) as u64 }
    } else {
        status
    }
}

fn size(x: i128) -> (m: u128)
    ensures
        x >= 0 ==> m == x,
        x < 0 ==> m == -x,
{
    if x >= 0 {
        x as u128
    } else {
        (-(x + 1)) as u128 + 1
    }
}

/// Whether the move from `prev_price` to `price` is slow enough for the
/// breaker. A move that is too fast trips the breaker of the asset for the
/// breaker's timeout from `now`. Refused as `InvalidTimestamp` where
/// `prev_price` is not the earlier observation.
pub fn check_valid_velocity(
    breaker: &CircuitBreaker,
    status: &mut BreakerStatus,
    now: u64,
    price: &PriceData,
    prev_price: &PriceData,
) -> (valid: Result<bool, CircuitBreakerErrors>)
    requires
        prev_price.timestamp < price.timestamp ==> velocity_fits(*price, *prev_price),
        prev_price.timestamp < price.timestamp && exceeds(
            velocity(*price, *prev_price),
            breaker.velocity_threshold,
        ) ==> now + breaker.timeout <= u64::MAX,
    ensures
        prev_price.timestamp >= price.timestamp <==> valid == Err::<bool, CircuitBreakerErrors>(
            CircuitBreakerErrors::InvalidTimestamp,
        ),
        prev_price.timestamp < price.timestamp ==> valid == Ok::<bool, CircuitBreakerErrors>(
            !exceeds(velocity(*price, *prev_price), breaker.velocity_threshold),
        ),
        *final(status) == examined(*breaker, *old(status), now, *price, *prev_price),
{
    if prev_price.timestamp >= price.timestamp {
        return Err(CircuitBreakerErrors::InvalidTimestamp);
    }
    let moved: u128 = if (price.price >= 0) == (prev_price.price >= 0) {
        let a = size(price.price);
        let b = size(prev_price.price);
        if a >= b {
            a - b
        } else {
            b - a
        }
    } else {
        size(price.price) + size(prev_price.price)
    };
    assert(moved == abs_diff(price.price as int, prev_price.price as int));
    let base: u128 = size(prev_price.price);
    let delta: u128 = (moved * 10000) / base;
    let seconds: u128 = (price.timestamp - prev_price.timestamp) as u128;
    proof {
        assert(price_delta(price.price as int, prev_price.price as int) == if prev_price.price
            > 0 {
            delta as int
        } else {
            -(delta as int)
        });
        assert((-(delta as int)) * 10000 == -(delta * 10000)) by (nonlinear_arith);
    }
    let speed: u128 = (delta * 10000) / seconds;
    proof {
        assert(velocity(*price, *prev_price) == if prev_price.price > 0 {
            speed as int
        } else {
            -(speed as int)
        });
    }
    let low: u128 = speed % 0x1_0000_0000;
    let held: u128 = if prev_price.price > 0 || low == 0 {
        low
    } else {
        0x1_0000_0000 - low
    };
    if held > breaker.velocity_threshold as u128 {
        status.tripped = true;
        status.until = now + breaker.timeout;
        Ok(false)
    } else {
        Ok(true)
    }
}

/// What becomes of the breaker of an asset when it is consulted at `now`:
/// a tripped breaker whose timeout has passed gives way.
pub open spec fn consulted(breaker: CircuitBreaker, status: BreakerStatus, now: u64)
    -> BreakerStatus {
    if breaker.enabled && status.tripped && status.until <= now {
        BreakerStatus { tripped: false, ..status }
    } else {
        status
    }
}

/// Consults the breaker of an asset before a read at `now`. Refused as
/// `CircuitBreakerTripped` where breakers are enabled and this one is
/// tripped until later than `now`; a tripped breaker whose timeout has
/// passed gives way.
pub fn check_circuit_breaker(breaker: &CircuitBreaker, status: &mut BreakerStatus, now: u64) -> (open:
    Result<(), CircuitBreakerErrors>)
    ensures
        open is Err <==> breaker.enabled && old(status).tripped && old(status).until > now,
        open matches Err(e) ==> e == CircuitBreakerErrors::CircuitBreakerTripped,
        *final(status) == consulted(*breaker, *old(status), now),
{
    if breaker.enabled && status.tripped {
        if status.until > now {
            return Err(CircuitBreakerErrors::CircuitBreakerTripped);
        }
        status.tripped = false;
    }
    Ok(())
}

} // verus!
