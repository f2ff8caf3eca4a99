use vstd::prelude::*;
use crate::errors::OracleAggregatorErrors;
use crate::mock_oracle::{feed_at, MockOracleView};
use crate::price_data::pow10;
use crate::resolver::{query_of, resolvable, resolve};
use crate::types::{AssetConfigView, AssetView, OracleConfigView, PriceData};

verus! {

/// The most oracles that can be registered.
pub const MAX_ORACLES: usize = 10;

/// The most assets that can be configured.
pub const MAX_ASSETS: usize = 20;

/// The most assets that can be pegged to the base asset.
pub const MAX_BASE_ASSETS: usize = 10;

/// The shortest staleness window, in seconds.
pub const MIN_MAX_AGE: u64 = 360;

/// The longest staleness window, in seconds.
pub const MAX_MAX_AGE: u64 = 3600;

/// The most decimals that the aggregator can report in: with more, one base
/// asset would not fit a price.
pub const MAX_DECIMALS: u32 = 38;

/// The mathematical value of an [`crate::contract::OracleAggregator`].
pub struct OracleAggregatorView {
    pub admin: Seq<char>,
    /// The asset that prices are reported in.
    pub base: AssetView,
    /// Decimals of the prices that are reported.
    pub decimals: u32,
    /// The oldest acceptable age of a price, in seconds.
    pub max_age: u64,
    /// The registered oracles, each at the position that is its index.
    pub oracles: Seq<OracleConfigView>,
    /// The assets that are pegged to the base asset, in the order they were
    /// added.
    pub base_assets: Seq<AssetView>,
    /// The configured assets, in the order they were added.
    pub assets: Seq<AssetView>,
    /// The configuration of each configured asset.
    pub configs: Seq<AssetConfigView>,
    /// Whether price reads of each configured asset are disabled.
    pub blocked: Seq<bool>,
}

/// The addresses of a list of oracles, in its order.
pub open spec fn oracle_addresses(oracles: Seq<OracleConfigView>) -> Seq<Seq<char>> {
    oracles.map_values(|oracle: OracleConfigView| oracle.address)
}

/// The mathematical value of a [`crate::contract::PriceSource`].
pub enum PriceSourceView {
    Pegged(PriceData),
    Oracle(OracleConfigView, AssetConfigView),
}

impl OracleAggregatorView {
    /// The registries are consistent: the lengths are within capacity, every
    /// oracle stands at its index under an address of its own, every
    /// configuration names a registered oracle, and no asset is listed twice
    /// or is more than one of base asset, pegged and configured.
    pub open spec fn valid(self) -> bool {
        &&& MIN_MAX_AGE <= self.max_age <= MAX_MAX_AGE
        &&& self.decimals <= MAX_DECIMALS
        &&& self.oracles.len() <= MAX_ORACLES
        &&& forall|i: int| 0 <= i < self.oracles.len() ==> (#[trigger] self.oracles[i]).index == i
        &&& oracle_addresses(self.oracles).no_duplicates()
        &&& self.assets.len() <= MAX_ASSETS
        &&& self.configs.len() == self.assets.len()
        &&& self.blocked.len() == self.assets.len()
        &&& self.assets.no_duplicates()
        &&& forall|i: int|
            0 <= i < self.configs.len() ==> (#[trigger] self.configs[i]).oracle_index
                < self.oracles.len()
        &&& self.base_assets.len() <= MAX_BASE_ASSETS
        &&& self.base_assets.no_duplicates()
        &&& !self.base_assets.contains(self.base)
        &&& !self.assets.contains(self.base)
        &&& forall|asset: AssetView|
            !(self.base_assets.contains(asset) && #[trigger] self.assets.contains(asset))
    }

    /// The asset is priced at one base asset: it is the base asset or pegged
    /// to it.
    pub open spec fn is_pegged(self, asset: AssetView) -> bool {
        asset == self.base || self.base_assets.contains(asset)
    }

    /// The asset has a configuration.
    pub open spec fn is_configured(self, asset: AssetView) -> bool {
        self.assets.contains(asset)
    }

    /// The configuration of the asset, if it has one.
    pub open spec fn config(self, asset: AssetView) -> Option<AssetConfigView> {
        match self.assets.index_of_first(asset) {
            Some(i) => Some(self.configs[i]),
            None => None,
        }
    }

    /// Price reads of the asset are disabled.
    pub open spec fn is_blocked(self, asset: AssetView) -> bool {
        match self.assets.index_of_first(asset) {
            Some(i) => self.blocked[i],
            None => false,
        }
    }

    /// The registered oracle at `address`, if there is one.
    pub open spec fn oracle(self, address: Seq<char>) -> Option<OracleConfigView> {
        match oracle_addresses(self.oracles).index_of_first(address) {
            Some(i) => Some(self.oracles[i]),
            None => None,
        }
    }

    /// Every asset that has a price, the pegged ones first.
    pub open spec fn all_assets(self) -> Seq<AssetView> {
        self.base_assets + self.assets
    }

    /// The price of one base asset at `now`.
    pub open spec fn unit_price(self, now: u64) -> PriceData {
        PriceData { price: pow10(self.decimals as nat) as i128, timestamp: now }
    }

    /// What the price of `asset` at `now` is made from, or why it has none.
    pub open spec fn source(self, asset: AssetView, now: u64) -> Result<
        PriceSourceView,
        OracleAggregatorErrors,
    > {
        if self.is_pegged(asset) {
            Ok(PriceSourceView::Pegged(self.unit_price(now)))
        } else {
            match self.assets.index_of_first(asset) {
                None => Err(OracleAggregatorErrors::AssetNotFound),
                Some(i) => if self.blocked[i] {
                    Err(OracleAggregatorErrors::AssetBlocked)
                } else if self.configs[i].oracle_index >= self.oracles.len() {
                    Err(OracleAggregatorErrors::OracleNotFound)
                } else {
                    Ok(
                        PriceSourceView::Oracle(
                            self.oracles[self.configs[i].oracle_index as int],
                            self.configs[i],
                        ),
                    )
                },
            }
        }
    }

    /// Whether an oracle at `address` can be registered, or why not.
    pub open spec fn check_oracle(self, address: Seq<char>) -> Result<(), OracleAggregatorErrors> {
        if oracle_addresses(self.oracles).contains(address) {
            Err(OracleAggregatorErrors::OracleExists)
        } else if self.oracles.len() >= MAX_ORACLES {
            Err(OracleAggregatorErrors::MaxOraclesExceeded)
        } else {
            Ok(())
        }
    }

    /// The aggregator with one more oracle, at the end of the registry.
    pub open spec fn with_oracle(self, address: Seq<char>, resolution: u32, decimals: u32) -> Self {
        OracleAggregatorView {
            oracles: self.oracles.push(
                OracleConfigView {
                    address,
                    index: self.oracles.len() as u32,
                    resolution,
                    decimals,
                },
            ),
            ..self
        }
    }

    /// Whether `asset` can be pegged to the base asset, or why not.
    pub open spec fn check_base_asset(self, asset: AssetView) -> Result<
        (),
        OracleAggregatorErrors,
    > {
        if self.is_pegged(asset) || self.is_configured(asset) {
            Err(OracleAggregatorErrors::AssetExists)
        } else if self.base_assets.len() >= MAX_BASE_ASSETS {
            Err(OracleAggregatorErrors::MaxAssetsExceeded)
        } else {
            Ok(())
        }
    }

    /// The aggregator with one more pegged asset.
    pub open spec fn with_base_asset(self, asset: AssetView) -> Self {
        OracleAggregatorView { base_assets: self.base_assets.push(asset), ..self }
    }

    /// The oracle that `asset` would be configured on, or why it cannot be
    /// configured on the oracle at `address`.
    pub open spec fn check_asset(self, asset: AssetView, address: Seq<char>) -> Result<
        OracleConfigView,
        OracleAggregatorErrors,
    > {
        if self.is_configured(asset) || asset == self.base {
            Err(OracleAggregatorErrors::AssetExists)
        } else if self.assets.len() >= MAX_ASSETS {
            Err(OracleAggregatorErrors::MaxAssetsExceeded)
        } else {
            match self.oracle(address) {
                Some(oracle) => Ok(oracle),
                None => Err(OracleAggregatorErrors::OracleNotFound),
            }
        }
    }

    /// The aggregator with one more configured asset, unblocked. If the
    /// asset was pegged, it no longer is.
    pub open spec fn with_asset(self, asset: AssetView, config: AssetConfigView) -> Self {
        OracleAggregatorView {
            base_assets: self.base_assets.remove_value(asset),
            assets: self.assets.push(asset),
            configs: self.configs.push(config),
            blocked: self.blocked.push(false),
            ..self
        }
    }

    /// The aggregator without the configuration of `asset`, and without its
    /// block; `AssetNotFound` where it has no configuration.
    pub open spec fn without_asset(self, asset: AssetView) -> Result<Self, OracleAggregatorErrors> {
        match self.assets.index_of_first(asset) {
            Some(i) => Ok(
                OracleAggregatorView {
                    assets: self.assets.remove(i),
                    configs: self.configs.remove(i),
                    blocked: self.blocked.remove(i),
                    ..self
                },
            ),
            None => Err(OracleAggregatorErrors::AssetNotFound),
        }
    }

    /// The aggregator with price reads of `asset` disabled or enabled;
    /// `AssetNotFound` where it has no configuration.
    pub open spec fn with_block(self, asset: AssetView, blocked: bool) -> Result<
        Self,
        OracleAggregatorErrors,
    > {
        match self.assets.index_of_first(asset) {
            Some(i) => Ok(OracleAggregatorView { blocked: self.blocked.update(i, blocked), ..self }),
            None => Err(OracleAggregatorErrors::AssetNotFound),
        }
    }

    /// The configuration that `add_asset` writes for an asset on `oracle`.
    pub open spec fn new_config(oracle: OracleConfigView, oracle_asset: AssetView, max_dev: u32)
        -> AssetConfigView {
        AssetConfigView { asset: oracle_asset, oracle_index: oracle.index, max_dev }
    }

    /// The aggregator after an asset was offered for configuration together
    /// with the price that probing its oracle gave, and that price; or why
    /// the asset was refused.
    pub open spec fn register_asset(
        self,
        asset: AssetView,
        address: Seq<char>,
        oracle_asset: AssetView,
        max_dev: u32,
        probe: Option<PriceData>,
    ) -> Result<(Self, PriceData), OracleAggregatorErrors> {
        match self.check_asset(asset, address) {
            Err(e) => Err(e),
            Ok(oracle) => match probe {
                None => Err(OracleAggregatorErrors::InvalidAssetOracle),
                Some(price) => Ok(
                    (self.with_asset(asset, Self::new_config(oracle, oracle_asset, max_dev)), price),
                ),
            },
        }
    }

    /// The price of `asset` at `now`, read from `feeds`.
    pub open spec fn lastprice(self, feeds: Seq<MockOracleView>, asset: AssetView, now: u64)
        -> Result<Option<PriceData>, OracleAggregatorErrors> {
        match self.source(asset, now) {
            Err(e) => Err(e),
            Ok(PriceSourceView::Pegged(price)) => Ok(Some(price)),
            Ok(PriceSourceView::Oracle(oracle, config)) => match feed_at(feeds, oracle.address) {
                None => Err(OracleAggregatorErrors::OracleNotFound),
                Some(feed) => Ok(
                    resolve(
                        query_of(oracle, config, self.decimals, self.max_age, now, false),
                        feed.rounds(config.asset),
                        feed.last_timestamp,
                    ),
                ),
            },
        }
    }

    /// Reading the price of `asset` at `now` from `feeds` overflows on no
    /// price.
    pub open spec fn can_price(self, feeds: Seq<MockOracleView>, asset: AssetView, now: u64)
        -> bool {
        match self.source(asset, now) {
            Ok(PriceSourceView::Oracle(oracle, config)) => match feed_at(feeds, oracle.address) {
                Some(feed) => resolvable(
                    query_of(oracle, config, self.decimals, self.max_age, now, false),
                    feed.rounds(config.asset),
                    feed.last_timestamp,
                ),
                None => true,
            },
            _ => true,
        }
    }

    /// The aggregator after the oracle at `address` among `feeds` was
    /// offered for registration, or why it was refused.
    pub open spec fn add_oracle(self, feeds: Seq<MockOracleView>, address: Seq<char>) -> Result<
        Self,
        OracleAggregatorErrors,
    > {
        match self.check_oracle(address) {
            Err(e) => Err(e),
            Ok(_) => match feed_at(feeds, address) {
                None => Err(OracleAggregatorErrors::OracleNotFound),
                Some(feed) => Ok(self.with_oracle(address, feed.resolution, feed.decimals)),
            },
        }
    }

    /// The price that probing `oracle_asset` on the oracle at `address`
    /// among `feeds` gives at `now`, where an asset is offered for
    /// configuration with it. `None` too where the probe is never made.
    pub open spec fn probe(
        self,
        feeds: Seq<MockOracleView>,
        asset: AssetView,
        address: Seq<char>,
        oracle_asset: AssetView,
        max_dev: u32,
        now: u64,
    ) -> Option<PriceData> {
        match (self.check_asset(asset, address), feed_at(feeds, address)) {
            (Ok(oracle), Some(feed)) => resolve(
                query_of(
                    oracle,
                    Self::new_config(oracle, oracle_asset, max_dev),
                    self.decimals,
                    self.max_age,
                    now,
                    true,
                ),
                feed.rounds(oracle_asset),
                feed.last_timestamp,
            ),
            _ => None,
        }
    }

    /// Probing `oracle_asset` on the oracle at `address` among `feeds`
    /// overflows on no price.
    pub open spec fn can_probe(
        self,
        feeds: Seq<MockOracleView>,
        asset: AssetView,
        address: Seq<char>,
        oracle_asset: AssetView,
        max_dev: u32,
        now: u64,
    ) -> bool {
        match (self.check_asset(asset, address), feed_at(feeds, address)) {
            (Ok(oracle), Some(feed)) => resolvable(
                query_of(
                    oracle,
                    Self::new_config(oracle, oracle_asset, max_dev),
                    self.decimals,
                    self.max_age,
                    now,
                    true,
                ),
                feed.rounds(oracle_asset),
                feed.last_timestamp,
            ),
            _ => true,
        }
    }

    /// The aggregator after `asset` was offered for configuration on the
    /// oracle at `address` among `feeds`, and the price that the probe gave;
    /// or why the asset was refused.
    pub open spec fn add_asset(
        self,
        feeds: Seq<MockOracleView>,
        asset: AssetView,
        address: Seq<char>,
        oracle_asset: AssetView,
        max_dev: u32,
        now: u64,
    ) -> Result<(Self, PriceData), OracleAggregatorErrors> {
        match self.check_asset(asset, address) {
            Err(e) => Err(e),
            Ok(oracle) => match feed_at(feeds, address) {
                None => Err(OracleAggregatorErrors::OracleNotFound),
                Some(_) => self.register_asset(
                    asset,
                    address,
                    oracle_asset,
                    max_dev,
                    self.probe(feeds, asset, address, oracle_asset, max_dev, now),
                ),
            },
        }
    }
}

/// Registering an oracle keeps the registries consistent.
pub proof fn lemma_with_oracle_valid(
    state: OracleAggregatorView,
    address: Seq<char>,
    resolution: u32,
    decimals: u32,
)
    requires
        state.valid(),
        state.check_oracle(address) is Ok,
    ensures
        state.with_oracle(address, resolution, decimals).valid(),
{
    let next = state.with_oracle(address, resolution, decimals);
    let before = oracle_addresses(state.oracles);
    let after = oracle_addresses(next.oracles);
    assert(after =~= before.push(address));
    assert forall|i: int, j: int| 0 <= i < after.len() && 0 <= j < after.len() && i != j implies
        after[i] != after[j] by {
        if i < before.len() {
            assert(before.contains(before[i]));
        }
        if j < before.len() {
            assert(before.contains(before[j]));
        }
    }
}

/// Pegging an asset keeps the registries consistent.
pub proof fn lemma_with_base_asset_valid(state: OracleAggregatorView, asset: AssetView)
    requires
        state.valid(),
        state.check_base_asset(asset) is Ok,
    ensures
        state.with_base_asset(asset).valid(),
{
    let before = state.base_assets;
    let after = state.with_base_asset(asset).base_assets;
    assert forall|i: int, j: int| 0 <= i < after.len() && 0 <= j < after.len() && i != j implies
        after[i] != after[j] by {
        if i < before.len() {
            assert(before.contains(before[i]));
        }
        if j < before.len() {
            assert(before.contains(before[j]));
        }
    }
    assert forall|other: AssetView| after.contains(other) implies other == asset
        || before.contains(other) by {
        let k = choose|k: int| 0 <= k < after.len() && after[k] == other;
        if k < before.len() {
            assert(before[k] == other);
        }
    }
}

/// What is left of a list without repetitions when a value is taken out.
pub proof fn lemma_remove_value<A>(list: Seq<A>, value: A)
    requires
        list.no_duplicates(),
    ensures
        list.remove_value(value).no_duplicates(),
        list.remove_value(value).len() <= list.len(),
        !list.remove_value(value).contains(value),
        forall|other: A| #[trigger]
            list.remove_value(value).contains(other) <==> list.contains(other) && other != value,
{
    list.index_of_first_ensures(value);
    let rest = list.remove_value(value);
    match list.index_of_first(value) {
        None => {},
        Some(i) => {
            assert forall|other: A| #[trigger] rest.contains(other) implies list.contains(other)
                && other != value by {
                let k = choose|k: int| 0 <= k < rest.len() && rest[k] == other;
                if k < i {
                    assert(list[k] == other);
                } else {
                    assert(list[k + 1] == other);
                }
            }
            assert forall|other: A| list.contains(other) && other != value implies #[trigger]
                rest.contains(other) by {
                let k = choose|k: int| 0 <= k < list.len() && list[k] == other;
                if k < i {
                    assert(rest[k] == other);
                } else {
                    assert(rest[k - 1] == other);
                }
            }
            assert forall|a: int, b: int| 0 <= a < rest.len() && 0 <= b < rest.len() && a != b implies
                rest[a] != rest[b] by {
                let a0 = if a < i { a } else { a + 1 };
                let b0 = if b < i { b } else { b + 1 };
                assert(rest[a] == list[a0]);
                assert(rest[b] == list[b0]);
            }
        },
    }
}

/// Configuring an asset on a registered oracle keeps the registries
/// consistent, also where the asset was pegged before.
pub proof fn lemma_with_asset_valid(
    state: OracleAggregatorView,
    asset: AssetView,
    config: AssetConfigView,
)
    requires
        state.valid(),
        !state.is_configured(asset),
        state.assets.len() < MAX_ASSETS,
        asset != state.base,
        config.oracle_index < state.oracles.len(),
    ensures
        state.with_asset(asset, config).valid(),
{
    let next = state.with_asset(asset, config);
    lemma_remove_value(state.base_assets, asset);
    let before = state.assets;
    let after = next.assets;
    assert forall|i: int, j: int| 0 <= i < after.len() && 0 <= j < after.len() && i != j implies
        after[i] != after[j] by {
        if i < before.len() {
            assert(before.contains(before[i]));
        }
        if j < before.len() {
            assert(before.contains(before[j]));
        }
    }
    assert forall|other: AssetView| after.contains(other) implies other == asset
        || before.contains(other) by {
        let k = choose|k: int| 0 <= k < after.len() && after[k] == other;
        if k < before.len() {
            assert(before[k] == other);
        }
    }
    assert forall|other: AssetView|
        !(next.base_assets.contains(other) && #[trigger] next.assets.contains(other)) by {
        if next.base_assets.contains(other) && next.assets.contains(other) {
            assert(state.base_assets.contains(other));
            assert(other != asset);
            assert(state.assets.contains(other));
        }
    }
    if next.base_assets.contains(state.base) {
        assert(state.base_assets.contains(state.base));
    }
}

/// Removing a configured asset keeps the registries consistent.
pub proof fn lemma_without_asset_valid(state: OracleAggregatorView, asset: AssetView)
    requires
        state.valid(),
        state.without_asset(asset) is Ok,
    ensures
        state.without_asset(asset).unwrap().valid(),
        !state.without_asset(asset).unwrap().is_configured(asset),
{
    let next = state.without_asset(asset).unwrap();
    state.assets.index_of_first_ensures(asset);
    lemma_remove_value(state.assets, asset);
    let i = state.assets.index_of_first(asset).unwrap();
    assert(next.assets == state.assets.remove_value(asset));
    assert forall|k: int| 0 <= k < next.configs.len() implies (#[trigger] next.configs[k]).oracle_index
        < next.oracles.len() by {
        if k < i {
            assert(next.configs[k] == state.configs[k]);
        } else {
            assert(next.configs[k] == state.configs[k + 1]);
        }
    }
    assert forall|other: AssetView|
        !(next.base_assets.contains(other) && #[trigger] next.assets.contains(other)) by {
        if next.base_assets.contains(other) && next.assets.contains(other) {
            assert(state.assets.contains(other));
        }
    }
    if next.assets.contains(state.base) {
        assert(state.assets.contains(state.base));
    }
}

} // verus!
