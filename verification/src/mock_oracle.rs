use vstd::prelude::*;
use crate::resolver::{price_at, Rounds};
use crate::types::{asset_views, find_asset, Asset, AssetView, PriceData};

verus! {

/// An oracle held in memory: for each asset it knows, the observations it
/// has published, the one published last first.
#[derive(Clone, Debug)]
pub struct MockOracle {
    address: String,
    decimals: u32,
    resolution: u32,
    last_timestamp: u64,
    assets: Vec<Asset>,
    histories: Vec<Vec<PriceData>>,
}

/// The mathematical value of a [`MockOracle`].
pub struct MockOracleView {
    pub address: Seq<char>,
    pub decimals: u32,
    pub resolution: u32,
    /// The latest round that was published.
    pub last_timestamp: u64,
    pub assets: Seq<AssetView>,
    /// The observations of each asset, the one published last first.
    pub histories: Seq<Seq<PriceData>>,
}

/// The first observation in `history`, from position `from` on, that was
/// published at `t`.
pub open spec fn first_at(history: Seq<PriceData>, t: u64, from: int) -> Option<PriceData>
    decreases history.len() - from,
{
    if from < 0 || from >= history.len() {
        None
    } else if history[from].timestamp == t {
        Some(history[from])
    } else {
        first_at(history, t, from + 1)
    }
}

/// What an oracle with these observations answers, round by round.
pub open spec fn rounds_of(history: Seq<PriceData>) -> Rounds {
    Map::new(|t: u64| first_at(history, t, 0) is Some, |t: u64| first_at(history, t, 0).unwrap())
}

/// The latest second among `floor` and the seconds of `history`.
pub open spec fn latest(floor: u64, history: Seq<PriceData>) -> u64
    decreases history.len(),
{
    if history.len() == 0 {
        floor
    } else {
        let before = latest(floor, history.drop_last());
        if history.last().timestamp > before {
            history.last().timestamp
        } else {
            before
        }
    }
}

/// The observations at `timestamp` that a round of `prices` adds in front of
/// the `i`-th asset's history: one, unless the round has no price for it.
/// Zero stands for no price.
pub open spec fn round_entry(prices: Seq<i128>, timestamp: u64, i: int) -> Seq<PriceData> {
    if 0 <= i < prices.len() && prices[i] != 0 {
        seq![PriceData { price: prices[i], timestamp }]
    } else {
        Seq::empty()
    }
}

impl MockOracleView {
    /// The observations of `asset`, the one published last first; none for
    /// an asset that the oracle does not know.
    pub open spec fn history(self, asset: AssetView) -> Seq<PriceData> {
        match self.assets.index_of_first(asset) {
            Some(i) => self.histories[i],
            None => Seq::empty(),
        }
    }

    /// What the oracle answers for `asset`, round by round.
    pub open spec fn rounds(self, asset: AssetView) -> Rounds {
        rounds_of(self.history(asset))
    }

    /// The observation of `asset` that was published last.
    pub open spec fn last_price(self, asset: AssetView) -> Option<PriceData> {
        if self.history(asset).len() > 0 {
            Some(self.history(asset)[0])
        } else {
            None
        }
    }

    /// The `records` observations of `asset` that were published last, or
    /// all where there are fewer; `None` for an asset that the oracle does
    /// not know.
    pub open spec fn prices(self, asset: AssetView, records: u32) -> Option<Seq<PriceData>> {
        if self.assets.contains(asset) {
            Some(
                if records < self.history(asset).len() {
                    self.history(asset).subrange(0, records as int)
                } else {
                    self.history(asset)
                },
            )
        } else {
            None
        }
    }

    /// The oracle after the observations of `asset` were replaced by
    /// `history`. An asset that the oracle did not know is one it knows now,
    /// and the latest round is the latest second that it has seen.
    pub open spec fn with_history(self, asset: AssetView, history: Seq<PriceData>)
        -> MockOracleView {
        match self.assets.index_of_first(asset) {
            Some(i) => MockOracleView {
                last_timestamp: latest(self.last_timestamp, history),
                histories: self.histories.update(i, history),
                ..self
            },
            None => MockOracleView {
                last_timestamp: latest(self.last_timestamp, history),
                assets: self.assets.push(asset),
                histories: self.histories.push(history),
                ..self
            },
        }
    }

    /// The oracle after it published `prices`, one per asset in the order of
    /// its assets, as the round at `timestamp`.
    pub open spec fn with_round(self, prices: Seq<i128>, timestamp: u64) -> MockOracleView {
        MockOracleView {
            last_timestamp: if timestamp > self.last_timestamp {
                timestamp
            } else {
                self.last_timestamp
            },
            histories: Seq::new(
                self.histories.len(),
                |i: int| round_entry(prices, timestamp, i) + self.histories[i],
            ),
            ..self
        }
    }
}

impl View for MockOracle {
    type V = MockOracleView;

    closed spec fn view(&self) -> MockOracleView {
        MockOracleView {
            address: self.address@,
            decimals: self.decimals,
            resolution: self.resolution,
            last_timestamp: self.last_timestamp,
            assets: asset_views(self.assets@),
            histories: self.histories@.map_values(|history: Vec<PriceData>| history@),
        }
    }
}

impl MockOracle {
    /// Every asset has its history.
    pub open spec fn wf(&self) -> bool {
        self@.assets.len() == self@.histories.len()
    }

    /// An oracle at `address` that knows `assets` and has published nothing.
    pub fn new(address: String, assets: Vec<Asset>, decimals: u32, resolution: u32) -> (oracle:
        MockOracle)
        ensures
            oracle.wf(),
            oracle@ == (MockOracleView {
                address: address@,
                decimals,
                resolution,
                last_timestamp: 0,
                assets: asset_views(assets@),
                histories: Seq::new(assets.len() as nat, |i: int| Seq::<PriceData>::empty()),
            }),
    {
        let mut histories: Vec<Vec<PriceData>> = Vec::new();
        let mut i: usize = 0;
        while i < assets.len()
            invariant
                i <= assets.len(),
                histories.len() == i,
                forall|j: int| 0 <= j < i ==> (#[trigger] histories[j])@ == Seq::<PriceData>::empty(),
            decreases assets.len() - i,
        {
            histories.push(Vec::new());
            i = i + 1;
        }
        let oracle = MockOracle {
            address,
            decimals,
            resolution,
            last_timestamp: 0,
            assets,
            histories,
        };
        assert(oracle@.histories =~= Seq::new(
            assets.len() as nat,
            |i: int| Seq::<PriceData>::empty(),
        ));
        oracle
    }

    pub fn address(&self) -> (address: &String)
        ensures
            address@ == self@.address,
    {
        &self.address
    }

    pub fn decimals(&self) -> (decimals: u32)
        ensures
            decimals == self@.decimals,
    {
        self.decimals
    }

    pub fn resolution(&self) -> (resolution: u32)
        ensures
            resolution == self@.resolution,
    {
        self.resolution
    }

    /// The latest round that the oracle has published.
    pub fn last_timestamp(&self) -> (timestamp: u64)
        ensures
            timestamp == self@.last_timestamp,
    {
        self.last_timestamp
    }

    /// The observation of `asset` for the round at `timestamp`.
    pub fn price(&self, asset: &Asset, timestamp: u64) -> (price: Option<PriceData>)
        requires
            self.wf(),
        ensures
            price == price_at(self@.rounds(asset@), timestamp as int),
    {
        match find_asset(&self.assets, asset) {
            None => None,
            Some(i) => {
                let history = &self.histories[i];
                assert(history@ == self@.history(asset@));
                let mut k: usize = 0;
                while k < history.len()
                    invariant
                        k <= history.len(),
                        history@ == self@.history(asset@),
                        first_at(history@, timestamp, 0) == first_at(history@, timestamp, k as int),
                    decreases history.len() - k,
                {
                    if history[k].timestamp == timestamp {
                        return Some(history[k]);
                    }
                    k = k + 1;
                }
                None
            },
        }
    }

    /// Publishes `prices`, one per asset in the order of the oracle's
    /// assets, as the round at `timestamp`. Zero stands for no price.
    pub fn set_price(&mut self, prices: Vec<i128>, timestamp: u64)
        requires
            old(self).wf(),
        ensures
            final(self).wf(),
            final(self)@ == old(self)@.with_round(prices@, timestamp),
    {
        let mut histories: Vec<Vec<PriceData>> = Vec::new();
        let mut i: usize = 0;
        while i < self.histories.len()
            invariant
                i <= self.histories.len(),
                histories.len() == i,
                forall|j: int|
                    0 <= j < i ==> (#[trigger] histories[j])@ == round_entry(prices@, timestamp, j)
                        + self.histories[j]@,
            decreases self.histories.len() - i,
        {
            let mut history: Vec<PriceData> = Vec::new();
            if i < prices.len() && prices[i] != 0 {
                history.push(PriceData { price: prices[i], timestamp });
            }
            let earlier = &self.histories[i];
            let mut k: usize = 0;
            while k < earlier.len()
                invariant
                    k <= earlier.len(),
                    history@ == round_entry(prices@, timestamp, i as int) + earlier@.subrange(
                        0,
                        k as int,
                    ),
                decreases earlier.len() - k,
            {
                history.push(earlier[k]);
                k = k + 1;
            }
            assert(earlier@.subrange(0, k as int) == earlier@);
            histories.push(history);
            i = i + 1;
        }
        self.histories = histories;
        if timestamp > self.last_timestamp {
            self.last_timestamp = timestamp;
        }
        assert(self@.histories =~= old(self)@.with_round(prices@, timestamp).histories);
    }

    /// The observation of `asset` that was published last.
    pub fn last_price(&self, asset: &Asset) -> (price: Option<PriceData>)
        requires
            self.wf(),
        ensures
            price == self@.last_price(asset@),
    {
        match find_asset(&self.assets, asset) {
            None => None,
            Some(i) => {
                let history = &self.histories[i];
                assert(history@ == self@.history(asset@));
                if history.len() > 0 {
                    Some(history[0])
                } else {
                    None
                }
            },
        }
    }

    /// The `records` observations of `asset` that were published last, or
    /// all where there are fewer; `None` for an asset that the oracle does
    /// not know.
    pub fn prices(&self, asset: &Asset, records: u32) -> (prices: Option<Vec<PriceData>>)
        requires
            self.wf(),
        ensures
            match prices {
                Some(found) => self@.prices(asset@, records) == Some(found@),
                None => self@.prices(asset@, records) is None,
            },
    {
        match find_asset(&self.assets, asset) {
            None => None,
            Some(i) => {
                let history = &self.histories[i];
                assert(history@ == self@.history(asset@));
                let mut found: Vec<PriceData> = Vec::new();
                let mut k: usize = 0;
                while k < history.len() && k < records as usize
                    invariant
                        k <= history.len(),
                        k <= records,
                        found@ == history@.subrange(0, k as int),
                    decreases history.len() - k,
                {
                    found.push(history[k]);
                    k = k + 1;
                }
                assert(history@.subrange(0, history.len() as int) == history@);
                Some(found)
            },
        }
    }

    /// Replaces the observations of `asset` by `prices`, the one published
    /// last first. An asset that the oracle does not know is added to it.
    pub fn set_prices(&mut self, asset: &Asset, prices: Vec<PriceData>)
        requires
            old(self).wf(),
        ensures
            final(self).wf(),
            final(self)@ == old(self)@.with_history(asset@, prices@),
    {
        let mut last: u64 = self.last_timestamp;
        let mut k: usize = 0;
        while k < prices.len()
            invariant
                k <= prices.len(),
                last == latest(self.last_timestamp, prices@.subrange(0, k as int)),
            decreases prices.len() - k,
        {
            assert(prices@.subrange(0, k + 1).drop_last() == prices@.subrange(0, k as int));
            if prices[k].timestamp > last {
                last = prices[k].timestamp;
            }
            k = k + 1;
        }
        assert(prices@.subrange(0, k as int) == prices@);
        match find_asset(&self.assets, asset) {
            Some(i) => {
                self.histories.set(i, prices);
                self.last_timestamp = last;
                assert(self@.histories =~= old(self)@.with_history(asset@, prices@).histories);
            },
            None => {
                self.assets.push(asset.clone());
                self.histories.push(prices);
                self.last_timestamp = last;
                assert(self@.assets =~= old(self)@.with_history(asset@, prices@).assets);
                assert(self@.histories =~= old(self)@.with_history(asset@, prices@).histories);
            },
        }
    }
}

/// The mathematical values of a list of oracles, in its order.
pub open spec fn feed_views(feeds: Seq<MockOracle>) -> Seq<MockOracleView> {
    feeds.map_values(|feed: MockOracle| feed@)
}

/// Every oracle of the list is well formed.
pub open spec fn feeds_wf(feeds: Seq<MockOracle>) -> bool {
    forall|i: int| 0 <= i < feeds.len() ==> (#[trigger] feeds[i]).wf()
}

/// The addresses of a list of oracles, in its order.
pub open spec fn feed_addresses(feeds: Seq<MockOracleView>) -> Seq<Seq<char>> {
    feeds.map_values(|feed: MockOracleView| feed.address)
}

/// The first oracle of the list at `address`.
pub open spec fn feed_at(feeds: Seq<MockOracleView>, address: Seq<char>) -> Option<MockOracleView> {
    match feed_addresses(feeds).index_of_first(address) {
        Some(i) => Some(feeds[i]),
        None => None,
    }
}

/// Where the first oracle at `address` stands in `feeds`.
pub fn find_feed(feeds: &Vec<MockOracle>, address: &String) -> (found: Option<usize>)
    ensures
        match found {
            Some(i) => i < feeds.len() && feed_at(feed_views(feeds@), address@) == Some(
                feeds[i as int]@,
            ),
            None => feed_at(feed_views(feeds@), address@) is None,
        },
{
    let ghost addresses = feed_addresses(feed_views(feeds@));
    let mut i: usize = 0;
    while i < feeds.len()
        invariant
            i <= feeds.len(),
            addresses == feed_addresses(feed_views(feeds@)),
            forall|j: int| 0 <= j < i ==> addresses[j] != address@,
        decreases feeds.len() - i,
    {
        if feeds[i].address == *address {
            proof {
                assert(addresses[i as int] == address@);
                addresses.index_of_first_ensures(address@);
            }
            return Some(i);
        }
        i = i + 1;
    }
    proof {
        addresses.index_of_first_ensures(address@);
    }
    None
}

} // verus!
