use vstd::prelude::*;
use crate::errors::OracleAggregatorErrors;
use crate::mock_oracle::{feed_views, feeds_wf, find_feed, MockOracle};
use crate::price_data::{
    checked_get_price, checked_probe_price, get_price, lemma_pow10_increases, lemma_pow10_limit,
    pow10, probe_price,
};
use crate::state::{
    lemma_with_asset_valid, lemma_with_base_asset_valid, lemma_with_oracle_valid,
    lemma_without_asset_valid, oracle_addresses, OracleAggregatorView, PriceSourceView,
};
pub use crate::state::{
    MAX_ASSETS, MAX_BASE_ASSETS, MAX_DECIMALS, MAX_MAX_AGE, MAX_ORACLES, MIN_MAX_AGE,
};
use crate::types::{
    asset_views, find_asset, Asset, AssetConfig, AssetConfigView, AssetView, OracleConfig,
    OracleConfigView, PriceData,
};

verus! {

/// The aggregator: its settings, the oracles it reads, and the assets it
/// prices, each either pegged to the base asset or configured on an oracle.
/// It does not know who calls it: whoever holds it sees to it that only the
/// administrator changes it.
#[derive(Clone, Debug)]
pub struct OracleAggregator {
    admin: String,
    base: Asset,
    decimals: u32,
    max_age: u64,
    oracles: Vec<OracleConfig>,
    base_assets: Vec<Asset>,
    assets: Vec<Asset>,
    configs: Vec<AssetConfig>,
    blocked: Vec<bool>,
}

/// The mathematical values of a list of oracles, in its order.
pub open spec fn oracle_views(oracles: Seq<OracleConfig>) -> Seq<OracleConfigView> {
    oracles.map_values(|oracle: OracleConfig| oracle@)
}

/// The mathematical values of a list of configurations, in its order.
pub open spec fn config_views(configs: Seq<AssetConfig>) -> Seq<AssetConfigView> {
    configs.map_values(|config: AssetConfig| config@)
}

/// What a price of an asset is made from.
#[derive(Clone, Debug)]
pub enum PriceSource {
    /// The asset is the base asset or pegged to it: this is its price.
    Pegged(PriceData),
    /// The asset is priced by this oracle under this configuration.
    Oracle(OracleConfig, AssetConfig),
}

impl View for PriceSource {
    type V = PriceSourceView;

    open spec fn view(&self) -> PriceSourceView {
        match self {
            PriceSource::Pegged(price) => PriceSourceView::Pegged(*price),
            PriceSource::Oracle(oracle, config) => PriceSourceView::Oracle(oracle@, config@),
        }
    }
}

impl View for OracleAggregator {
    type V = OracleAggregatorView;

    closed spec fn view(&self) -> OracleAggregatorView {
        OracleAggregatorView {
            admin: self.admin@,
            base: self.base@,
            decimals: self.decimals,
            max_age: self.max_age,
            oracles: oracle_views(self.oracles@),
            base_assets: asset_views(self.base_assets@),
            assets: asset_views(self.assets@),
            configs: config_views(self.configs@),
            blocked: self.blocked@,
        }
    }
}

/// Ten to the power `decimals`.
fn unit(decimals: u32) -> (one: i128)
    requires
        decimals <= MAX_DECIMALS,
    ensures
        one == pow10(decimals as nat),
{
    let mut one: i128 = 1;
    let mut i: u32 = 0;
    proof {
        lemma_pow10_increases(0, 38);
    }
    while i < decimals
        invariant
            i <= decimals <= MAX_DECIMALS,
            one == pow10(i as nat),
            one <= pow10(38),
        decreases decimals - i,
    {
        proof {
            lemma_pow10_increases((i + 1) as nat, 38);
            lemma_pow10_limit();
        }
        one = one * 10;
        i = i + 1;
    }
    one
}

/// Where the oracle at `address` stands in `oracles`.
fn find_oracle(oracles: &Vec<OracleConfig>, address: &String) -> (found: Option<usize>)
    ensures
        match found {
            Some(i) => oracle_addresses(oracle_views(oracles@)).index_of_first(address@) == Some(
                i as int,
            ),
            None => oracle_addresses(oracle_views(oracles@)).index_of_first(address@) is None,
        },
        found matches Some(i) ==> i < oracles.len() && oracles[i as int]@.address == address@,
        found is None <==> !oracle_addresses(oracle_views(oracles@)).contains(address@),
{
    let ghost addresses = oracle_addresses(oracle_views(oracles@));
    let mut i: usize = 0;
    while i < oracles.len()
        invariant
            i <= oracles.len(),
            addresses == oracle_addresses(oracle_views(oracles@)),
            forall|j: int| 0 <= j < i ==> addresses[j] != address@,
        decreases oracles.len() - i,
    {
        if oracles[i].address == *address {
            proof {
                assert(addresses[i as int] == address@);
                addresses.index_of_first_ensures(address@);
            }
            return Some(i);
        }
        i = i + 1;
    }
    proof {
        addresses.index_of_first_ensures(address@);
    }
    None
}

/// A copy of a list of assets.
fn clone_assets(list: &Vec<Asset>) -> (copy: Vec<Asset>)
    ensures
        asset_views(copy@) == asset_views(list@),
{
    let mut copy: Vec<Asset> = Vec::new();
    let mut i: usize = 0;
    while i < list.len()
        invariant
            i <= list.len(),
            copy.len() == i,
            forall|j: int| 0 <= j < i ==> (#[trigger] copy[j])@ == list[j]@,
        decreases list.len() - i,
    {
        copy.push(list[i].clone());
        i = i + 1;
    }
    assert(asset_views(copy@) =~= asset_views(list@));
    copy
}

/// Whether no asset stands twice in `list`.
fn distinct_assets(list: &Vec<Asset>) -> (distinct: bool)
    ensures
        distinct == asset_views(list@).no_duplicates(),
{
    let ghost views = asset_views(list@);
    let mut i: usize = 0;
    while i < list.len()
        invariant
            i <= list.len(),
            views == asset_views(list@),
            forall|a: int, b: int| 0 <= a < b < i ==> views[a] != views[b],
        decreases list.len() - i,
    {
        match find_asset(list, &list[i]) {
            Some(first) => {
                if first != i {
                    proof {
                        views.index_of_first_ensures(views[i as int]);
                        assert(views[first as int] == views[i as int]);
                    }
                    return false;
                }
                proof {
                    views.index_of_first_ensures(views[i as int]);
                }
            },
            None => {
                proof {
                    assert(views[i as int] == list[i as int]@);
                    assert(views.contains(views[i as int]));
                }
                return false;
            },
        }
        i = i + 1;
    }
    true
}

/// Whether every oracle of `oracles` stands at its index, under an address
/// of its own.
fn aligned_oracles(oracles: &Vec<OracleConfig>) -> (aligned: bool)
    ensures
        aligned == {
            &&& forall|i: int|
                0 <= i < oracles.len() ==> (#[trigger] oracle_views(oracles@)[i]).index == i
            &&& oracle_addresses(oracle_views(oracles@)).no_duplicates()
        },
{
    let ghost views = oracle_views(oracles@);
    let ghost addresses = oracle_addresses(views);
    let mut i: usize = 0;
    while i < oracles.len()
        invariant
            i <= oracles.len(),
            views == oracle_views(oracles@),
            addresses == oracle_addresses(views),
            forall|k: int| 0 <= k < i ==> (#[trigger] views[k]).index == k,
            forall|a: int, b: int| 0 <= a < b < i ==> addresses[a] != addresses[b],
        decreases oracles.len() - i,
    {
        if oracles[i].index as usize != i {
            assert(views[i as int].index != i);
            return false;
        }
        match find_oracle(oracles, &oracles[i].address) {
            Some(first) => {
                if first != i {
                    proof {
                        addresses.index_of_first_ensures(addresses[i as int]);
                        assert(addresses[first as int] == addresses[i as int]);
                    }
                    return false;
                }
                proof {
                    addresses.index_of_first_ensures(addresses[i as int]);
                }
            },
            None => {
                proof {
                    assert(addresses.contains(addresses[i as int]));
                }
                return false;
            },
        }
        i = i + 1;
    }
    true
}

/// Whether `list` and `other` share no asset.
fn disjoint_assets(list: &Vec<Asset>, other: &Vec<Asset>) -> (disjoint: bool)
    ensures
        disjoint == (forall|asset: AssetView|
            !(asset_views(list@).contains(asset) && #[trigger] asset_views(other@).contains(
                asset,
            ))),
{
    let ghost views = asset_views(list@);
    let ghost others = asset_views(other@);
    let mut i: usize = 0;
    while i < list.len()
        invariant
            i <= list.len(),
            views == asset_views(list@),
            others == asset_views(other@),
            forall|k: int| 0 <= k < i ==> !others.contains(#[trigger] views[k]),
        decreases list.len() - i,
    {
        if find_asset(other, &list[i]).is_some() {
            proof {
                assert(views[i as int] == list[i as int]@);
                assert(views.contains(views[i as int]));
            }
            return false;
        }
        i = i + 1;
    }
    assert forall|asset: AssetView| !(views.contains(asset) && #[trigger] others.contains(
        asset,
    )) by {
        if views.contains(asset) {
            let k = choose|k: int| 0 <= k < views.len() && views[k] == asset;
            assert(!others.contains(views[k]));
        }
    }
    true
}

/// Whether every configuration names one of the first `oracles` oracles.
fn indexed_configs(configs: &Vec<AssetConfig>, oracles: usize) -> (indexed: bool)
    ensures
        indexed == (forall|i: int|
            0 <= i < configs.len() ==> (#[trigger] config_views(configs@)[i]).oracle_index
                < oracles),
{
    let ghost views = config_views(configs@);
    let mut i: usize = 0;
    while i < configs.len()
        invariant
            i <= configs.len(),
            views == config_views(configs@),
            forall|k: int| 0 <= k < i ==> (#[trigger] views[k]).oracle_index < oracles,
        decreases configs.len() - i,
    {
        if configs[i].oracle_index as usize >= oracles {
            assert(views[i as int].oracle_index >= oracles);
            return false;
        }
        i = i + 1;
    }
    true
}

impl OracleAggregator {
    /// The aggregator is consistent.
    pub open spec fn wf(&self) -> bool {
        self@.valid()
    }

    /// An aggregator that reports in `decimals` decimals of `base`, accepts
    /// prices up to `max_age` seconds old, and has no oracle and no asset
    /// yet. A staleness window outside 360..=3600 seconds is refused.
    pub fn new(admin: String, base: Asset, decimals: u32, max_age: u64) -> (made: Result<
        OracleAggregator,
        OracleAggregatorErrors,
    >)
        requires
            decimals <= MAX_DECIMALS,
        ensures
            made is Ok <==> MIN_MAX_AGE <= max_age <= MAX_MAX_AGE,
            made matches Err(e) ==> e == OracleAggregatorErrors::InvalidMaxAge,
            made matches Ok(aggregator) ==> aggregator.wf() && aggregator@ == (
            OracleAggregatorView {
                admin: admin@,
                base: base@,
                decimals,
                max_age,
                oracles: Seq::empty(),
                base_assets: Seq::empty(),
                assets: Seq::empty(),
                configs: Seq::empty(),
                blocked: Seq::empty(),
            }),
    {
        if max_age < MIN_MAX_AGE || max_age > MAX_MAX_AGE {
            return Err(OracleAggregatorErrors::InvalidMaxAge);
        }
        let aggregator = OracleAggregator {
            admin,
            base,
            decimals,
            max_age,
            oracles: Vec::new(),
            base_assets: Vec::new(),
            assets: Vec::new(),
            configs: Vec::new(),
            blocked: Vec::new(),
        };
        proof {
            assert(aggregator@.oracles =~= Seq::empty());
            assert(aggregator@.base_assets =~= Seq::empty());
            assert(aggregator@.assets =~= Seq::empty());
            assert(aggregator@.configs =~= Seq::empty());
            assert(aggregator@.blocked =~= Seq::empty());
        }
        Ok(aggregator)
    }

    /// The aggregator that is made of these parts, where they are
    /// consistent: `None` where they are not.
    pub fn restore(
        admin: String,
        base: Asset,
        decimals: u32,
        max_age: u64,
        oracles: Vec<OracleConfig>,
        base_assets: Vec<Asset>,
        assets: Vec<Asset>,
        configs: Vec<AssetConfig>,
        blocked: Vec<bool>,
    ) -> (restored: Option<OracleAggregator>)
        ensures
            restored is Some <==> (OracleAggregatorView {
                admin: admin@,
                base: base@,
                decimals,
                max_age,
                oracles: oracle_views(oracles@),
                base_assets: asset_views(base_assets@),
                assets: asset_views(assets@),
                configs: config_views(configs@),
                blocked: blocked@,
            }).valid(),
            restored matches Some(aggregator) ==> aggregator.wf() && aggregator@ == (
            OracleAggregatorView {
                admin: admin@,
                base: base@,
                decimals,
                max_age,
                oracles: oracle_views(oracles@),
                base_assets: asset_views(base_assets@),
                assets: asset_views(assets@),
                configs: config_views(configs@),
                blocked: blocked@,
            }),
    {
        let sound = max_age >= MIN_MAX_AGE && max_age <= MAX_MAX_AGE && decimals <= MAX_DECIMALS
            && oracles.len() <= MAX_ORACLES && assets.len() <= MAX_ASSETS && configs.len()
            == assets.len() && blocked.len() == assets.len() && base_assets.len()
            <= MAX_BASE_ASSETS && aligned_oracles(&oracles) && distinct_assets(&assets)
            && indexed_configs(&configs, oracles.len()) && distinct_assets(&base_assets)
            && find_asset(&base_assets, &base).is_none() && find_asset(&assets, &base).is_none()
            && disjoint_assets(&base_assets, &assets);
        if sound {
            Some(
                OracleAggregator {
                    admin,
                    base,
                    decimals,
                    max_age,
                    oracles,
                    base_assets,
                    assets,
                    configs,
                    blocked,
                },
            )
        } else {
            None
        }
    }

    pub fn admin(&self) -> (admin: &String)
        ensures
            admin@ == self@.admin,
    {
        &self.admin
    }

    /// The asset that prices are reported in.
    pub fn base(&self) -> (base: Asset)
        ensures
            base@ == self@.base,
    {
        self.base.clone()
    }

    /// Decimals of the prices that are reported.
    pub fn decimals(&self) -> (decimals: u32)
        ensures
            decimals == self@.decimals,
    {
        self.decimals
    }

    /// The oldest acceptable age of a price, in seconds.
    pub fn max_age(&self) -> (max_age: u64)
        ensures
            max_age == self@.max_age,
    {
        self.max_age
    }

    /// The registered oracles, each at its index.
    pub fn oracles(&self) -> (oracles: Vec<OracleConfig>)
        ensures
            oracle_views(oracles@) == self@.oracles,
    {
        let mut copy: Vec<OracleConfig> = Vec::new();
        let mut i: usize = 0;
        while i < self.oracles.len()
            invariant
                i <= self.oracles.len(),
                copy.len() == i,
                forall|j: int| 0 <= j < i ==> (#[trigger] copy[j])@ == self.oracles[j]@,
            decreases self.oracles.len() - i,
        {
            copy.push(self.oracles[i].clone());
            i = i + 1;
        }
        assert(oracle_views(copy@) =~= self@.oracles);
        copy
    }

    /// The configured assets, each with its configuration, in the order they
    /// were added.
    pub fn asset_configs(&self) -> (pairs: Vec<(Asset, AssetConfig)>)
        requires
            self.wf(),
        ensures
            pairs.len() == self@.assets.len(),
            forall|i: int|
                0 <= i < pairs.len() ==> (#[trigger] pairs[i]).0@ == self@.assets[i] && pairs[i].1@
                    == self@.configs[i],
    {
        let mut pairs: Vec<(Asset, AssetConfig)> = Vec::new();
        let mut i: usize = 0;
        while i < self.assets.len()
            invariant
                i <= self.assets.len(),
                self.configs.len() == self.assets.len(),
                pairs.len() == i,
                forall|j: int|
                    0 <= j < i ==> (#[trigger] pairs[j]).0@ == self.assets[j]@ && pairs[j].1@
                        == self.configs[j]@,
            decreases self.assets.len() - i,
        {
            pairs.push((self.assets[i].clone(), self.configs[i].clone()));
            i = i + 1;
        }
        pairs
    }

    /// The assets that are pegged to the base asset, in the order they were
    /// added.
    pub fn base_assets(&self) -> (assets: Vec<Asset>)
        ensures
            asset_views(assets@) == self@.base_assets,
    {
        clone_assets(&self.base_assets)
    }

    /// Every asset that has a price besides the base asset: the pegged ones,
    /// then the configured ones, each in the order they were added.
    pub fn assets(&self) -> (assets: Vec<Asset>)
        ensures
            asset_views(assets@) == self@.all_assets(),
    {
        let mut all = clone_assets(&self.base_assets);
        let mut i: usize = 0;
        while i < self.assets.len()
            invariant
                i <= self.assets.len(),
                asset_views(all@) == asset_views(self.base_assets@) + asset_views(
                    self.assets@,
                ).subrange(0, i as int),
            decreases self.assets.len() - i,
        {
            let ghost before = asset_views(all@);
            all.push(self.assets[i].clone());
            assert(asset_views(all@) =~= before.push(self.assets[i as int]@));
            assert(asset_views(self.assets@).subrange(0, i + 1) =~= asset_views(
                self.assets@,
            ).subrange(0, i as int).push(self.assets[i as int]@));
            i = i + 1;
        }
        assert(asset_views(self.assets@).subrange(0, i as int) =~= asset_views(self.assets@));
        all
    }

    /// Whether price reads are disabled, for each configured asset in the
    /// order of [`Self::asset_configs`].
    pub fn blocked(&self) -> (blocked: Vec<bool>)
        ensures
            blocked@ == self@.blocked,
    {
        let mut copy: Vec<bool> = Vec::new();
        let mut i: usize = 0;
        while i < self.blocked.len()
            invariant
                i <= self.blocked.len(),
                copy@ == self.blocked@.subrange(0, i as int),
            decreases self.blocked.len() - i,
        {
            copy.push(self.blocked[i]);
            assert(copy@ == self.blocked@.subrange(0, i + 1));
            i = i + 1;
        }
        assert(self.blocked@.subrange(0, i as int) == self.blocked@);
        copy
    }

    /// The configuration of `asset`, if it has one.
    pub fn config(&self, asset: &Asset) -> (config: Option<AssetConfig>)
        requires
            self.wf(),
        ensures
            match config {
                Some(found) => self@.config(asset@) == Some(found@),
                None => self@.config(asset@) is None,
            },
    {
        match find_asset(&self.assets, asset) {
            Some(i) => Some(self.configs[i].clone()),
            None => None,
        }
    }

    /// Whether price reads of `asset` are disabled.
    pub fn is_blocked(&self, asset: &Asset) -> (blocked: bool)
        requires
            self.wf(),
        ensures
            blocked == self@.is_blocked(asset@),
    {
        match find_asset(&self.assets, asset) {
            Some(i) => self.blocked[i],
            None => false,
        }
    }

    /// What the price of `asset` at `now` is made from: the price itself for
    /// the base asset and the assets pegged to it, else the oracle and the
    /// configuration to resolve it with. An asset without configuration is
    /// refused as `AssetNotFound`, a blocked one as `AssetBlocked`.
    pub fn price_source(&self, asset: &Asset, now: u64) -> (source: Result<
        PriceSource,
        OracleAggregatorErrors,
    >)
        requires
            self.wf(),
        ensures
            match source {
                Ok(found) => self@.source(asset@, now) == Ok::<
                    PriceSourceView,
                    OracleAggregatorErrors,
                >(found@),
                Err(e) => self@.source(asset@, now) == Err::<
                    PriceSourceView,
                    OracleAggregatorErrors,
                >(e),
            },
    {
        if *asset == self.base || find_asset(&self.base_assets, asset).is_some() {
            return Ok(
                PriceSource::Pegged(PriceData { price: unit(self.decimals), timestamp: now }),
            );
        }
        match find_asset(&self.assets, asset) {
            None => Err(OracleAggregatorErrors::AssetNotFound),
            Some(i) => {
                if self.blocked[i] {
                    Err(OracleAggregatorErrors::AssetBlocked)
                } else {
                    let config = &self.configs[i];
                    if config.oracle_index as usize >= self.oracles.len() {
                        Err(OracleAggregatorErrors::OracleNotFound)
                    } else {
                        Ok(
                            PriceSource::Oracle(
                                self.oracles[config.oracle_index as usize].clone(),
                                config.clone(),
                            ),
                        )
                    }
                }
            },
        }
    }

    /// The aggregator serves the latest price only: a read of the round at
    /// `timestamp` is refused as `NotImplemented`.
    pub fn price(&self, asset: &Asset, timestamp: u64) -> (price: Result<
        Option<PriceData>,
        OracleAggregatorErrors,
    >)
        ensures
            price == Err::<Option<PriceData>, OracleAggregatorErrors>(
                OracleAggregatorErrors::NotImplemented,
            ),
    {
        Err(OracleAggregatorErrors::NotImplemented)
    }

    /// The aggregator serves the latest price only: a read of the latest
    /// `records` rounds is refused as `NotImplemented`.
    pub fn prices(&self, asset: &Asset, records: u32) -> (prices: Result<
        Option<Vec<PriceData>>,
        OracleAggregatorErrors,
    >)
        ensures
            prices matches Err(e) && e == OracleAggregatorErrors::NotImplemented,
    {
        Err(OracleAggregatorErrors::NotImplemented)
    }

    /// Replaces the administrator.
    pub fn set_admin(&mut self, admin: String)
        ensures
            final(self)@ == (OracleAggregatorView { admin: admin@, ..old(self)@ }),
            old(self).wf() ==> final(self).wf(),
    {
        self.admin = admin;
    }

    /// Whether an oracle at `oracle_id` can be registered: `OracleExists`
    /// where one is, `MaxOraclesExceeded` where the registry is full.
    pub fn check_oracle(&self, oracle_id: &String) -> (checked: Result<(), OracleAggregatorErrors>)
        ensures
            checked == self@.check_oracle(oracle_id@),
    {
        if find_oracle(&self.oracles, oracle_id).is_some() {
            Err(OracleAggregatorErrors::OracleExists)
        } else if self.oracles.len() >= MAX_ORACLES {
            Err(OracleAggregatorErrors::MaxOraclesExceeded)
        } else {
            Ok(())
        }
    }

    /// Registers the oracle at `oracle_id`, which reports rounds every
    /// `resolution` seconds in `decimals` decimals, at the end of the
    /// registry. Refused as [`Self::check_oracle`] says; the registry is
    /// then unchanged.
    pub fn register_oracle(&mut self, oracle_id: String, resolution: u32, decimals: u32) -> (done:
        Result<(), OracleAggregatorErrors>)
        requires
            old(self).wf(),
        ensures
            final(self).wf(),
            done == old(self)@.check_oracle(oracle_id@),
            done is Ok ==> final(self)@ == old(self)@.with_oracle(oracle_id@, resolution, decimals),
            done is Err ==> final(self)@ == old(self)@,
    {
        match self.check_oracle(&oracle_id) {
            Err(e) => Err(e),
            Ok(()) => {
                proof {
                    lemma_with_oracle_valid(self@, oracle_id@, resolution, decimals);
                }
                let index = self.oracles.len() as u32;
                self.oracles.push(OracleConfig { address: oracle_id, index, resolution, decimals });
                assert(self@.oracles =~= old(self)@.with_oracle(
                    oracle_id@,
                    resolution,
                    decimals,
                ).oracles);
                Ok(())
            },
        }
    }

    /// Registers the oracle at `oracle_id` with the resolution and decimals
    /// that it reports. Refused as [`Self::check_oracle`] says, and as
    /// `OracleNotFound` where `feeds` has no oracle at the address; the
    /// registry is then unchanged.
    pub fn add_oracle(&mut self, feeds: &Vec<MockOracle>, oracle_id: String) -> (done: Result<
        (),
        OracleAggregatorErrors,
    >)
        requires
            old(self).wf(),
        ensures
            final(self).wf(),
            match old(self)@.add_oracle(feed_views(feeds@), oracle_id@) {
                Ok(next) => done is Ok && final(self)@ == next,
                Err(e) => done == Err::<(), OracleAggregatorErrors>(e) && final(self)@ == old(
                    self,
                )@,
            },
    {
        match self.check_oracle(&oracle_id) {
            Err(e) => Err(e),
            Ok(()) => match find_feed(feeds, &oracle_id) {
                None => Err(OracleAggregatorErrors::OracleNotFound),
                Some(k) => {
                    let feed = &feeds[k];
                    self.register_oracle(oracle_id, feed.resolution(), feed.decimals())
                },
            },
        }
    }

    /// Pegs `base` to the base asset. Refused as `AssetExists` where the
    /// asset is the base asset, pegged or configured, as `MaxAssetsExceeded`
    /// where ten assets are pegged; the registry is then unchanged.
    pub fn add_base_asset(&mut self, base: Asset) -> (done: Result<(), OracleAggregatorErrors>)
        requires
            old(self).wf(),
        ensures
            final(self).wf(),
            done == old(self)@.check_base_asset(base@),
            done is Ok ==> final(self)@ == old(self)@.with_base_asset(base@),
            done is Err ==> final(self)@ == old(self)@,
    {
        if base == self.base || find_asset(&self.base_assets, &base).is_some() || find_asset(
            &self.assets,
            &base,
        ).is_some() {
            return Err(OracleAggregatorErrors::AssetExists);
        }
        if self.base_assets.len() >= MAX_BASE_ASSETS {
            return Err(OracleAggregatorErrors::MaxAssetsExceeded);
        }
        proof {
            lemma_with_base_asset_valid(self@, base@);
        }
        let ghost added = base@;
        self.base_assets.push(base);
        assert(self@.base_assets =~= old(self)@.with_base_asset(added).base_assets);
        Ok(())
    }

    /// The oracle that `asset` would be configured on. Refused as
    /// `AssetExists` where the asset is configured or the base asset, as
    /// `MaxAssetsExceeded` where twenty assets are configured, as
    /// `OracleNotFound` where no oracle is registered at `oracle_id`.
    pub fn check_asset(&self, asset: &Asset, oracle_id: &String) -> (checked: Result<
        OracleConfig,
        OracleAggregatorErrors,
    >)
        requires
            self.wf(),
        ensures
            match checked {
                Ok(oracle) => self@.check_asset(asset@, oracle_id@) == Ok::<
                    OracleConfigView,
                    OracleAggregatorErrors,
                >(oracle@),
                Err(e) => self@.check_asset(asset@, oracle_id@) == Err::<
                    OracleConfigView,
                    OracleAggregatorErrors,
                >(e),
            },
    {
        if find_asset(&self.assets, asset).is_some() || *asset == self.base {
            Err(OracleAggregatorErrors::AssetExists)
        } else if self.assets.len() >= MAX_ASSETS {
            Err(OracleAggregatorErrors::MaxAssetsExceeded)
        } else {
            match find_oracle(&self.oracles, oracle_id) {
                Some(i) => Ok(self.oracles[i].clone()),
                None => Err(OracleAggregatorErrors::OracleNotFound),
            }
        }
    }

    /// Configures `asset` on the oracle at `oracle_id`, to be read there as
    /// `oracle_asset` with a tolerance of `max_dev` percent, given the price
    /// that probing the oracle gave. Refused as [`Self::check_asset`] says,
    /// and as `InvalidAssetOracle` where the probe gave no price; the
    /// registries are then unchanged. A pegged asset is no longer pegged
    /// once it is configured.
    pub fn register_asset(
        &mut self,
        asset: Asset,
        oracle_id: &String,
        oracle_asset: Asset,
        max_dev: u32,
        probe: Option<PriceData>,
    ) -> (done: Result<PriceData, OracleAggregatorErrors>)
        requires
            old(self).wf(),
        ensures
            final(self).wf(),
            match old(self)@.register_asset(asset@, oracle_id@, oracle_asset@, max_dev, probe) {
                Ok((next, price)) => done == Ok::<PriceData, OracleAggregatorErrors>(price)
                    && final(self)@ == next,
                Err(e) => done == Err::<PriceData, OracleAggregatorErrors>(e) && final(self)@
                    == old(self)@,
            },
    {
        let oracle = match self.check_asset(&asset, oracle_id) {
            Ok(oracle) => oracle,
            Err(e) => {
                return Err(e);
            },
        };
        let price = match probe {
            Some(price) => price,
            None => {
                return Err(OracleAggregatorErrors::InvalidAssetOracle);
            },
        };
        let config = AssetConfig { asset: oracle_asset, oracle_index: oracle.index, max_dev };
        let ghost next = old(self)@.with_asset(asset@, config@);
        proof {
            oracle_addresses(self@.oracles).index_of_first_ensures(oracle_id@);
            lemma_with_asset_valid(self@, asset@, config@);
        }
        match find_asset(&self.base_assets, &asset) {
            Some(k) => {
                self.base_assets.remove(k);
                assert(self@.base_assets =~= next.base_assets);
            },
            None => {},
        }
        self.assets.push(asset);
        self.configs.push(config);
        self.blocked.push(false);
        assert(self@.assets =~= next.assets);
        assert(self@.configs =~= next.configs);
        assert(self@.blocked =~= next.blocked);
        Ok(price)
    }

    /// Removes the configuration of `asset`, and its block. Refused as
    /// `AssetNotFound` where the asset has no configuration.
    pub fn remove_asset(&mut self, asset: &Asset) -> (done: Result<(), OracleAggregatorErrors>)
        requires
            old(self).wf(),
        ensures
            final(self).wf(),
            match old(self)@.without_asset(asset@) {
                Ok(next) => done is Ok && final(self)@ == next,
                Err(e) => done == Err::<(), OracleAggregatorErrors>(e) && final(self)@ == old(
                    self,
                )@,
            },
    {
        match find_asset(&self.assets, asset) {
            None => Err(OracleAggregatorErrors::AssetNotFound),
            Some(i) => {
                let ghost next = old(self)@.without_asset(asset@).unwrap();
                proof {
                    lemma_without_asset_valid(self@, asset@);
                }
                self.assets.remove(i);
                self.configs.remove(i);
                self.blocked.remove(i);
                assert(self@.assets =~= next.assets);
                assert(self@.configs =~= next.configs);
                assert(self@.blocked =~= next.blocked);
                Ok(())
            },
        }
    }

    fn set_block(&mut self, asset: &Asset, blocked: bool) -> (done: Result<
        (),
        OracleAggregatorErrors,
    >)
        requires
            old(self).wf(),
        ensures
            final(self).wf(),
            match old(self)@.with_block(asset@, blocked) {
                Ok(next) => done is Ok && final(self)@ == next,
                Err(e) => done == Err::<(), OracleAggregatorErrors>(e) && final(self)@ == old(
                    self,
                )@,
            },
    {
        match find_asset(&self.assets, asset) {
            None => Err(OracleAggregatorErrors::AssetNotFound),
            Some(i) => {
                self.blocked.set(i, blocked);
                assert(self@.blocked =~= old(self)@.with_block(asset@, blocked).unwrap().blocked);
                Ok(())
            },
        }
    }

    /// Disables price reads of `asset`. Refused as `AssetNotFound` where the
    /// asset has no configuration.
    pub fn block(&mut self, asset: &Asset) -> (done: Result<(), OracleAggregatorErrors>)
        requires
            old(self).wf(),
        ensures
            final(self).wf(),
            match old(self)@.with_block(asset@, true) {
                Ok(next) => done is Ok && final(self)@ == next,
                Err(e) => done == Err::<(), OracleAggregatorErrors>(e) && final(self)@ == old(
                    self,
                )@,
            },
    {
        self.set_block(asset, true)
    }

    /// Enables price reads of `asset` again. Refused as `AssetNotFound`
    /// where the asset has no configuration.
    pub fn unblock(&mut self, asset: &Asset) -> (done: Result<(), OracleAggregatorErrors>)
        requires
            old(self).wf(),
        ensures
            final(self).wf(),
            match old(self)@.with_block(asset@, false) {
                Ok(next) => done is Ok && final(self)@ == next,
                Err(e) => done == Err::<(), OracleAggregatorErrors>(e) && final(self)@ == old(
                    self,
                )@,
            },
    {
        self.set_block(asset, false)
    }

    /// The price of `asset` at `now`: one base asset for the base asset and
    /// the assets pegged to it, else what resolving the asset's
    /// configuration against its oracle among `feeds` gives, which is `None`
    /// where the oracle offers no acceptable observation. Refused as
    /// `AssetNotFound` where the asset has no configuration, as
    /// `AssetBlocked` where it is blocked, as `OracleNotFound` where its
    /// oracle is not registered or not among `feeds`.
    pub fn lastprice(&self, feeds: &Vec<MockOracle>, asset: &Asset, now: u64) -> (price: Result<
        Option<PriceData>,
        OracleAggregatorErrors,
    >)
        requires
            self.wf(),
            feeds_wf(feeds@),
            self@.can_price(feed_views(feeds@), asset@, now),
        ensures
            price == self@.lastprice(feed_views(feeds@), asset@, now),
    {
        match self.price_source(asset, now) {
            Err(e) => Err(e),
            Ok(PriceSource::Pegged(price)) => Ok(Some(price)),
            Ok(PriceSource::Oracle(oracle, config)) => match find_feed(feeds, &oracle.address) {
                None => Err(OracleAggregatorErrors::OracleNotFound),
                Some(k) => Ok(
                    get_price(&feeds[k], &oracle, &config, self.decimals, self.max_age, now),
                ),
            },
        }
    }

    /// Configures `asset` on the oracle at `oracle_id`, to be read there as
    /// `oracle_asset` with a tolerance of `max_dev` percent, and returns the
    /// price that the oracle among `feeds` gives for it at `now`. Refused as
    /// [`Self::check_asset`] says, as `OracleNotFound` where the oracle is
    /// not among `feeds`, and as `InvalidAssetOracle` where it gives no
    /// price; the registries are then unchanged. A pegged asset is no longer
    /// pegged once it is configured.
    pub fn add_asset(
        &mut self,
        feeds: &Vec<MockOracle>,
        now: u64,
        asset: Asset,
        oracle_id: &String,
        oracle_asset: Asset,
        max_dev: u32,
    ) -> (done: Result<PriceData, OracleAggregatorErrors>)
        requires
            old(self).wf(),
            feeds_wf(feeds@),
            old(self)@.can_probe(
                feed_views(feeds@),
                asset@,
                oracle_id@,
                oracle_asset@,
                max_dev,
                now,
            ),
        ensures
            final(self).wf(),
            match old(self)@.add_asset(
                feed_views(feeds@),
                asset@,
                oracle_id@,
                oracle_asset@,
                max_dev,
                now,
            ) {
                Ok((next, price)) => done == Ok::<PriceData, OracleAggregatorErrors>(price)
                    && final(self)@ == next,
                Err(e) => done == Err::<PriceData, OracleAggregatorErrors>(e) && final(self)@
                    == old(self)@,
            },
    {
        let oracle = match self.check_asset(&asset, oracle_id) {
            Ok(oracle) => oracle,
            Err(e) => {
                return Err(e);
            },
        };
        let k = match find_feed(feeds, oracle_id) {
            Some(k) => k,
            None => {
                return Err(OracleAggregatorErrors::OracleNotFound);
            },
        };
        let config = AssetConfig {
            asset: oracle_asset.clone(),
            oracle_index: oracle.index,
            max_dev,
        };
        let probe = probe_price(&feeds[k], &oracle, &config, self.decimals, self.max_age, now);
        self.register_asset(asset, oracle_id, oracle_asset, max_dev, probe)
    }

    /// As [`Self::lastprice`], for any observations: `None` where the price
    /// that the resolution settles on overflows when it is put into the
    /// aggregator's decimals.
    pub fn checked_lastprice(&self, feeds: &Vec<MockOracle>, asset: &Asset, now: u64) -> (price:
        Option<Result<Option<PriceData>, OracleAggregatorErrors>>)
        requires
            self.wf(),
            feeds_wf(feeds@),
        ensures
            price is Some <==> self@.can_price(feed_views(feeds@), asset@, now),
            price matches Some(found) ==> found == self@.lastprice(feed_views(feeds@), asset@, now),
    {
        match self.price_source(asset, now) {
            Err(e) => Some(Err(e)),
            Ok(PriceSource::Pegged(price)) => Some(Ok(Some(price))),
            Ok(PriceSource::Oracle(oracle, config)) => match find_feed(feeds, &oracle.address) {
                None => Some(Err(OracleAggregatorErrors::OracleNotFound)),
                Some(k) => match checked_get_price(
                    &feeds[k],
                    &oracle,
                    &config,
                    self.decimals,
                    self.max_age,
                    now,
                ) {
                    Some(price) => Some(Ok(price)),
                    None => None,
                },
            },
        }
    }

    /// As [`Self::add_asset`], for any observations: `None`, and nothing
    /// changed, where the price that the probe settles on overflows when it
    /// is put into the aggregator's decimals.
    pub fn checked_add_asset(
        &mut self,
        feeds: &Vec<MockOracle>,
        now: u64,
        asset: Asset,
        oracle_id: &String,
        oracle_asset: Asset,
        max_dev: u32,
    ) -> (done: Option<Result<PriceData, OracleAggregatorErrors>>)
        requires
            old(self).wf(),
            feeds_wf(feeds@),
        ensures
            final(self).wf(),
            done is Some <==> old(self)@.can_probe(
                feed_views(feeds@),
                asset@,
                oracle_id@,
                oracle_asset@,
                max_dev,
                now,
            ),
            done is None ==> final(self)@ == old(self)@,
            done matches Some(outcome) ==> match old(self)@.add_asset(
                feed_views(feeds@),
                asset@,
                oracle_id@,
                oracle_asset@,
                max_dev,
                now,
            ) {
                Ok((next, price)) => outcome == Ok::<PriceData, OracleAggregatorErrors>(price)
                    && final(self)@ == next,
                Err(e) => outcome == Err::<PriceData, OracleAggregatorErrors>(e) && final(self)@
                    == old(self)@,
            },
    {
        let oracle = match self.check_asset(&asset, oracle_id) {
            Ok(oracle) => oracle,
            Err(e) => {
                return Some(Err(e));
            },
        };
        let k = match find_feed(feeds, oracle_id) {
            Some(k) => k,
            None => {
                return Some(Err(OracleAggregatorErrors::OracleNotFound));
            },
        };
        let config = AssetConfig {
            asset: oracle_asset.clone(),
            oracle_index: oracle.index,
            max_dev,
        };
        match checked_probe_price(&feeds[k], &oracle, &config, self.decimals, self.max_age, now) {
            Some(probe) => Some(self.register_asset(asset, oracle_id, oracle_asset, max_dev, probe)),
            None => None,
        }
    }
}

} // verus!
