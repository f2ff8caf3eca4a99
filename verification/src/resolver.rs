use vstd::prelude::*;
use crate::price_data::{
    can_rescale, check_deviation, checked_normalize, normalize, rescaled, within_deviation,
};
use crate::types::{AssetConfig, AssetConfigView, OracleConfig, OracleConfigView, PriceData};

verus! {

/// What one resolution of a price is made with: the tolerance of the asset,
/// the shape of its oracle, and the aggregator's decimals, staleness window
/// and clock.
#[derive(Copy, Clone, Debug, PartialEq, Eq)]
pub struct PriceQuery {
    /// The largest accepted move against an older round, in percent.
    pub max_dev: u32,
    /// Seconds between two rounds of the oracle.
    pub resolution: u32,
    /// Decimals of the prices the oracle reports.
    pub oracle_decimals: u32,
    /// Decimals of the prices the aggregator reports.
    pub decimals: u32,
    /// The oldest acceptable age of a price, in seconds.
    pub max_age: u64,
    /// The current time, in seconds.
    pub now: u64,
    /// The resolution probes an asset that is about to be configured: a
    /// candidate is also accepted where the oracle has no older price yet to
    /// hold it against.
    pub probing: bool,
}

/// A resolution that waits for one round of the oracle.
#[derive(Copy, Clone, Debug, PartialEq, Eq)]
pub struct Pending {
    pub query: PriceQuery,
    /// The round to read.
    pub timestamp: u64,
    /// The price to report, once one is found. Until then the resolution
    /// scans for it; after, it looks for an older price to hold it against.
    pub candidate: Option<PriceData>,
    /// How many rounds may still be read for the older price, this one
    /// included.
    pub retries: u64,
}

/// What a resolution does next.
#[derive(Copy, Clone, Debug, PartialEq, Eq)]
pub enum Step {
    /// Read the round at `timestamp` of the asset on its oracle, and hand the
    /// answer to [`Pending::supply`].
    Fetch(Pending),
    /// The resolution ended, with this price or with none.
    Done(Option<PriceData>),
}

/// What an answer of the oracle leads to.
#[derive(Copy, Clone, Debug, PartialEq, Eq)]
pub enum Turn {
    /// Another round is to be read.
    Read(Pending),
    /// The resolution settles: on this observation, still in the oracle's
    /// decimals, or on none.
    Settle(Option<PriceData>),
}

impl PriceQuery {
    /// The earliest second a reported price may carry. Negative while the
    /// clock is younger than the staleness window.
    pub open spec fn oldest(self) -> int {
        self.now - self.max_age
    }

    /// A candidate is only reported if an older price confirms it.
    pub open spec fn checks_deviation(self) -> bool {
        0 < self.max_dev < 100
    }

    /// How many rounds may be read in search of the older price: as many as
    /// the oracle publishes within the staleness window.
    pub open spec fn retry_budget(self) -> nat {
        if self.resolution == 0 {
            0
        } else {
            (self.max_age as nat) / (self.resolution as nat)
        }
    }

    /// What becomes of a candidate that no older price was found for.
    pub open spec fn unconfirmed(self, candidate: PriceData) -> Option<PriceData> {
        if self.probing {
            Some(candidate)
        } else {
            None
        }
    }

    /// The last gate: the accepted price in the aggregator's decimals, unless
    /// it is older than the staleness window.
    pub open spec fn finish(self, candidate: PriceData) -> Option<PriceData> {
        if candidate.timestamp >= self.oldest() {
            Some(
                PriceData {
                    price: rescaled(
                        candidate.price as int,
                        self.oracle_decimals as nat,
                        self.decimals as nat,
                    ) as i128,
                    timestamp: candidate.timestamp,
                },
            )
        } else {
            None
        }
    }

    /// As [`Self::finish`], from what was accepted, if anything.
    pub open spec fn finished(self, accepted: Option<PriceData>) -> Option<PriceData> {
        match accepted {
            Some(candidate) => self.finish(candidate),
            None => None,
        }
    }

    /// The scan for a candidate reaches the round at `t`: it is read if it is
    /// recent enough.
    pub open spec fn scan_turn(self, t: int) -> Turn {
        if 0 <= t && self.oldest() <= t {
            Turn::Read(Pending { query: self, timestamp: t as u64, candidate: None, retries: 0 })
        } else {
            Turn::Settle(None)
        }
    }

    /// The search for a price older than `candidate` reaches the round at
    /// `t` with `n` reads left.
    pub open spec fn look_turn(self, candidate: PriceData, t: int, n: int) -> Turn {
        if n > 0 && t >= 0 {
            Turn::Read(
                Pending {
                    query: self,
                    timestamp: t as u64,
                    candidate: Some(candidate),
                    retries: n as u64,
                },
            )
        } else {
            Turn::Settle(self.unconfirmed(candidate))
        }
    }

    /// The step that a turn amounts to.
    pub open spec fn step_of(self, turn: Turn) -> Step {
        match turn {
            Turn::Read(pending) => Step::Fetch(pending),
            Turn::Settle(accepted) => Step::Done(self.finished(accepted)),
        }
    }

    /// The first step of a resolution, from the oracle's latest round.
    pub open spec fn spec_start(self, last_timestamp: u64) -> Step {
        self.step_of(self.scan_turn(last_timestamp as int))
    }

    /// The query that reads the price of an asset of `config` on `oracle`.
    pub fn new(
        oracle: &OracleConfig,
        config: &AssetConfig,
        decimals: u32,
        max_age: u64,
        now: u64,
    ) -> (query: PriceQuery)
        ensures
            query == query_of(oracle@, config@, decimals, max_age, now, false),
    {
        PriceQuery {
            max_dev: config.max_dev,
            resolution: oracle.resolution,
            oracle_decimals: oracle.decimals,
            decimals,
            max_age,
            now,
            probing: false,
        }
    }

    /// The query that probes an asset which is about to be configured with
    /// `config` on `oracle`.
    pub fn probe(
        oracle: &OracleConfig,
        config: &AssetConfig,
        decimals: u32,
        max_age: u64,
        now: u64,
    ) -> (query: PriceQuery)
        ensures
            query == query_of(oracle@, config@, decimals, max_age, now, true),
    {
        PriceQuery {
            max_dev: config.max_dev,
            resolution: oracle.resolution,
            oracle_decimals: oracle.decimals,
            decimals,
            max_age,
            now,
            probing: true,
        }
    }

    fn is_fresh(&self, timestamp: u64) -> (fresh: bool)
        ensures
            fresh == (timestamp >= self.oldest()),
    {
        self.now <= self.max_age || timestamp >= self.now - self.max_age
    }

    fn scan_at(self, timestamp: u64) -> (turn: Turn)
        ensures
            turn == self.scan_turn(timestamp as int),
    {
        if self.is_fresh(timestamp) {
            Turn::Read(Pending { query: self, timestamp, candidate: None, retries: 0 })
        } else {
            Turn::Settle(None)
        }
    }

    fn look_before(self, candidate: PriceData, timestamp: u64, reads: u64) -> (turn: Turn)
        ensures
            turn == self.look_turn(candidate, timestamp - self.resolution, reads as int),
    {
        if reads == 0 || timestamp < self.resolution as u64 {
            if self.probing {
                Turn::Settle(Some(candidate))
            } else {
                Turn::Settle(None)
            }
        } else {
            Turn::Read(
                Pending {
                    query: self,
                    timestamp: timestamp - self.resolution as u64,
                    candidate: Some(candidate),
                    retries: reads,
                },
            )
        }
    }

    fn budget(&self) -> (reads: u64)
        ensures
            reads == self.retry_budget(),
    {
        if self.resolution == 0 {
            0
        } else {
            self.max_age / self.resolution as u64
        }
    }

    fn close(&self, candidate: PriceData) -> (price: Option<PriceData>)
        requires
            can_rescale(candidate.price, self.oracle_decimals, self.decimals),
        ensures
            price == self.finish(candidate),
    {
        if self.is_fresh(candidate.timestamp) {
            Some(
                PriceData {
                    price: normalize(candidate.price, self.oracle_decimals, self.decimals),
                    timestamp: candidate.timestamp,
                },
            )
        } else {
            None
        }
    }

    /// Begins a resolution. `last_timestamp` is the latest round that the
    /// oracle has published.
    pub fn start(self, last_timestamp: u64) -> (step: Step)
        ensures
            step == self.spec_start(last_timestamp),
    {
        match self.scan_at(last_timestamp) {
            Turn::Read(pending) => Step::Fetch(pending),
            Turn::Settle(_) => Step::Done(None),
        }
    }
}

/// The query that prices an asset of `config` on `oracle`.
pub open spec fn query_of(
    oracle: OracleConfigView,
    config: AssetConfigView,
    decimals: u32,
    max_age: u64,
    now: u64,
    probing: bool,
) -> PriceQuery {
    PriceQuery {
        max_dev: config.max_dev,
        resolution: oracle.resolution,
        oracle_decimals: oracle.decimals,
        decimals,
        max_age,
        now,
        probing,
    }
}

impl Pending {
    /// What the oracle's answer for the round at `self.timestamp` leads to.
    /// While no candidate is known, the first observation becomes it; it is
    /// settled on at once where the asset has no tolerance, else the search
    /// for an older price begins one round before the candidate. An older
    /// price settles the resolution: on the candidate if it lies within the
    /// tolerance, else on nothing. A round without an observation moves the
    /// resolution one round back, until the staleness window or the retry
    /// budget is used up.
    pub open spec fn turn(self, reply: Option<PriceData>) -> Turn {
        let query = self.query;
        match self.candidate {
            None => match reply {
                Some(found) => if query.checks_deviation() {
                    query.look_turn(
                        found,
                        found.timestamp - query.resolution,
                        query.retry_budget() as int,
                    )
                } else {
                    Turn::Settle(Some(found))
                },
                None => if query.resolution == 0 {
                    Turn::Settle(None)
                } else {
                    query.scan_turn(self.timestamp - query.resolution)
                },
            },
            Some(candidate) => match reply {
                Some(older) => if within_deviation(
                    candidate.price as int,
                    older.price as int,
                    query.max_dev as int,
                ) {
                    Turn::Settle(Some(candidate))
                } else {
                    Turn::Settle(None)
                },
                None => query.look_turn(
                    candidate,
                    self.timestamp - query.resolution,
                    self.retries - 1,
                ),
            },
        }
    }

    /// The answer leads to no price that overflows when it is rescaled.
    pub open spec fn admits(self, reply: Option<PriceData>) -> bool {
        self.turn(reply) matches Turn::Settle(Some(candidate)) ==> can_rescale(
            candidate.price,
            self.query.oracle_decimals,
            self.query.decimals,
        )
    }

    /// The step that follows the oracle's answer for the round at
    /// `self.timestamp`.
    pub open spec fn spec_supply(self, reply: Option<PriceData>) -> Step {
        self.query.step_of(self.turn(reply))
    }

    fn take_turn(&self, reply: Option<PriceData>) -> (turn: Turn)
        ensures
            turn == self.turn(reply),
    {
        let query = self.query;
        match self.candidate {
            None => match reply {
                Some(found) => {
                    if query.max_dev > 0 && query.max_dev < 100 {
                        query.look_before(found, found.timestamp, query.budget())
                    } else {
                        Turn::Settle(Some(found))
                    }
                },
                None => {
                    if query.resolution == 0 || self.timestamp < query.resolution as u64 {
                        Turn::Settle(None)
                    } else {
                        query.scan_at(self.timestamp - query.resolution as u64)
                    }
                },
            },
            Some(candidate) => match reply {
                Some(older) => {
                    if check_deviation(candidate.price, older.price, query.max_dev) {
                        Turn::Settle(Some(candidate))
                    } else {
                        Turn::Settle(None)
                    }
                },
                None => {
                    if self.retries == 0 {
                        query.look_before(candidate, self.timestamp, 0)
                    } else {
                        query.look_before(candidate, self.timestamp, self.retries - 1)
                    }
                },
            },
        }
    }

    /// Whether [`Self::supply`] may be called with this answer.
    pub fn admits_reply(&self, reply: &Option<PriceData>) -> (ok: bool)
        ensures
            ok == self.admits(*reply),
    {
        match self.take_turn(*reply) {
            Turn::Settle(Some(candidate)) => checked_normalize(
                candidate.price,
                self.query.oracle_decimals,
                self.query.decimals,
            ).is_some(),
            _ => true,
        }
    }

    /// Continues the resolution with the oracle's answer for the round at
    /// `self.timestamp`: `None` where the oracle holds no price for it.
    pub fn supply(self, reply: Option<PriceData>) -> (step: Step)
        requires
            self.admits(reply),
        ensures
            step == self.spec_supply(reply),
    {
        match self.take_turn(reply) {
            Turn::Read(pending) => Step::Fetch(pending),
            Turn::Settle(Some(candidate)) => Step::Done(self.query.close(candidate)),
            Turn::Settle(None) => Step::Done(None),
        }
    }
}

/// What an oracle holds for one asset: the observation of each round that
/// has one, by the second of the round.
pub type Rounds = Map<u64, PriceData>;

/// The oracle's answer for the round at `t`.
pub open spec fn price_at(rounds: Rounds, t: int) -> Option<PriceData> {
    if 0 <= t <= u64::MAX && rounds.dom().contains(t as u64) {
        Some(rounds[t as u64])
    } else {
        None
    }
}

/// The first observation among the rounds `t`, `t - step`, `t - 2 * step`,
/// ... that are not before `floor`.
pub open spec fn scan(rounds: Rounds, t: int, step: nat, floor: int) -> Option<PriceData>
    decreases t,
{
    if t < 0 || t < floor {
        None
    } else if price_at(rounds, t) is Some {
        price_at(rounds, t)
    } else if step == 0 || t < step {
        None
    } else {
        scan(rounds, t - step, step, floor)
    }
}

/// The first observation among the `n` rounds `t`, `t - step`, ...
pub open spec fn look_back(rounds: Rounds, t: int, step: nat, n: nat) -> Option<PriceData>
    decreases n,
{
    if n == 0 || t < 0 {
        None
    } else if price_at(rounds, t) is Some {
        price_at(rounds, t)
    } else {
        look_back(rounds, t - step, step, (n - 1) as nat)
    }
}

/// Whether an older price within reach of `t` confirms `candidate`.
pub open spec fn confirmed(
    query: PriceQuery,
    rounds: Rounds,
    candidate: PriceData,
    t: int,
    n: nat,
) -> Option<PriceData> {
    match look_back(rounds, t, query.resolution as nat, n) {
        Some(older) => if within_deviation(
            candidate.price as int,
            older.price as int,
            query.max_dev as int,
        ) {
            Some(candidate)
        } else {
            None
        },
        None => query.unconfirmed(candidate),
    }
}

/// The observation that a resolution settles on, in the oracle's decimals:
/// the latest one within the staleness window, provided that, where the
/// asset has a tolerance, the first older observation within the retry
/// budget lies close enough to it. A probe does without the older
/// observation where there is none.
pub open spec fn accepted(query: PriceQuery, rounds: Rounds, last_timestamp: int) -> Option<
    PriceData,
> {
    match scan(rounds, last_timestamp, query.resolution as nat, query.oldest()) {
        Some(candidate) => if query.checks_deviation() {
            confirmed(
                query,
                rounds,
                candidate,
                candidate.timestamp - query.resolution,
                query.retry_budget(),
            )
        } else {
            Some(candidate)
        },
        None => None,
    }
}

/// The price of a resolution against an oracle that holds `rounds` and has
/// published `last_timestamp` as its latest round.
pub open spec fn resolve(query: PriceQuery, rounds: Rounds, last_timestamp: u64) -> Option<
    PriceData,
> {
    query.finished(accepted(query, rounds, last_timestamp as int))
}

/// The resolution overflows on no price that it reports.
pub open spec fn resolvable(query: PriceQuery, rounds: Rounds, last_timestamp: u64) -> bool {
    accepted(query, rounds, last_timestamp as int) matches Some(candidate) ==> can_rescale(
        candidate.price,
        query.oracle_decimals,
        query.decimals,
    )
}

impl Pending {
    /// The resolution is at a point that [`PriceQuery::start`] and
    /// [`Pending::supply`] lead to.
    pub open spec fn wf(self) -> bool {
        match self.candidate {
            None => self.timestamp >= self.query.oldest(),
            Some(_) => self.retries >= 1 && self.query.checks_deviation(),
        }
    }

    /// The observation that the resolution settles on from here, against an
    /// oracle that holds `rounds`.
    pub open spec fn goal(self, rounds: Rounds) -> Option<PriceData> {
        match self.candidate {
            None => accepted(self.query, rounds, self.timestamp as int),
            Some(candidate) => confirmed(
                self.query,
                rounds,
                candidate,
                self.timestamp as int,
                self.retries as nat,
            ),
        }
    }

    /// A bound on the rounds that are still read, this one included.
    pub open spec fn reads_bound(self) -> nat {
        match self.candidate {
            None => self.query.reads_bound(self.timestamp),
            Some(_) => self.retries as nat,
        }
    }
}

impl PriceQuery {
    /// A bound on the rounds that the scan for a candidate reads from `t` on.
    pub open spec fn scan_bound(self, t: u64) -> nat {
        let floor = if self.oldest() > 0 {
            self.oldest()
        } else {
            0
        };
        if t < floor {
            0
        } else if self.resolution == 0 {
            1
        } else {
            ((t - floor) / (self.resolution as int) + 1) as nat
        }
    }

    /// A bound on the rounds that a resolution reads from `t` on: those of
    /// the scan and, where the asset has a tolerance, the retry budget.
    pub open spec fn reads_bound(self, t: u64) -> nat {
        if t < self.oldest() {
            0
        } else if self.checks_deviation() {
            self.scan_bound(t) + self.retry_budget()
        } else {
            self.scan_bound(t)
        }
    }
}

impl Step {
    /// The step is one that a resolution can be at.
    pub open spec fn wf(self) -> bool {
        self matches Step::Fetch(pending) ==> pending.wf()
    }

    /// A bound on the rounds that are still read.
    pub open spec fn reads_bound(self) -> nat {
        match self {
            Step::Fetch(pending) => pending.reads_bound(),
            Step::Done(_) => 0,
        }
    }

    /// The step agrees with a resolution of `query` against `rounds` that
    /// began at `last_timestamp`.
    pub open spec fn tracks(self, query: PriceQuery, rounds: Rounds, last_timestamp: u64) -> bool {
        match self {
            Step::Fetch(pending) => {
                &&& pending.wf()
                &&& pending.query == query
                &&& pending.goal(rounds) == accepted(query, rounds, last_timestamp as int)
            },
            Step::Done(price) => price == resolve(query, rounds, last_timestamp),
        }
    }
}

/// A resolution begins in agreement with [`resolve`], whatever the oracle
/// holds, and with all its reads ahead.
pub proof fn lemma_start_tracks(query: PriceQuery, rounds: Rounds, last_timestamp: u64)
    ensures
        query.spec_start(last_timestamp).tracks(query, rounds, last_timestamp),
        query.spec_start(last_timestamp).reads_bound() == query.reads_bound(last_timestamp),
        query.spec_start(last_timestamp) is Done ==> accepted(
            query,
            rounds,
            last_timestamp as int,
        ) is None,
{
}

/// One answer of the oracle, whatever it is, uses up one of the reads that
/// are left.
pub proof fn lemma_supply_bound(pending: Pending, reply: Option<PriceData>)
    requires
        pending.wf(),
    ensures
        pending.spec_supply(reply).wf(),
        pending.spec_supply(reply).reads_bound() < pending.reads_bound(),
{
    let query = pending.query;
    let resolution = query.resolution as int;
    if pending.candidate is None {
        let floor: int = if query.oldest() > 0 {
            query.oldest()
        } else {
            0
        };
        let span = pending.timestamp - floor;
        if resolution > 0 {
            assert((span - resolution) / resolution == span / resolution - 1) by (nonlinear_arith)
                requires
                    resolution > 0,
            ;
            assert(span / resolution >= 0) by (nonlinear_arith)
                requires
                    resolution > 0,
                    span >= 0,
            ;
        }
    }
}

/// How many rounds a resolution reads from `step` on, to its end, against
/// an oracle that holds `rounds`. A step that no resolution can be at reads
/// nothing.
pub open spec fn reads(step: Step, rounds: Rounds) -> nat
    decreases step.reads_bound(),
{
    match step {
        Step::Done(_) => 0,
        Step::Fetch(pending) => if pending.wf() {
            proof {
                lemma_supply_bound(pending, price_at(rounds, pending.timestamp as int));
            }
            1 + reads(pending.spec_supply(price_at(rounds, pending.timestamp as int)), rounds)
        } else {
            0
        },
    }
}

/// One answer of the oracle keeps a resolution in agreement with
/// [`resolve`]: where it settles, it settles on what [`accepted`] says. So
/// the answer is admitted wherever the resolution is resolvable, and where
/// it settles, only there.
pub proof fn lemma_supply_tracks(
    pending: Pending,
    query: PriceQuery,
    rounds: Rounds,
    last_timestamp: u64,
)
    requires
        Step::Fetch(pending).tracks(query, rounds, last_timestamp),
    ensures
        pending.spec_supply(price_at(rounds, pending.timestamp as int)).tracks(
            query,
            rounds,
            last_timestamp,
        ),
        pending.turn(price_at(rounds, pending.timestamp as int)) matches Turn::Settle(settled)
            ==> settled == accepted(query, rounds, last_timestamp as int),
        resolvable(query, rounds, last_timestamp) ==> pending.admits(
            price_at(rounds, pending.timestamp as int),
        ),
        pending.spec_supply(price_at(rounds, pending.timestamp as int)).reads_bound()
            < pending.reads_bound(),
{
    reveal_with_fuel(scan, 2);
    reveal_with_fuel(look_back, 2);
    lemma_supply_bound(pending, price_at(rounds, pending.timestamp as int));
}

} // verus!
