use vstd::prelude::*;
use vstd::std_specs::cmp::PartialEqSpecImpl;

verus! {

/// One observation of a price: a fixed-point amount and the second it was
/// published at.
#[derive(Copy, Clone, Debug, PartialEq, Eq, Structural)]
pub struct PriceData {
    pub price: i128,
    pub timestamp: u64,
}

/// Something that can be priced: an on-chain address or a symbolic name.
/// Both are held as their text.
#[derive(Debug, Hash)]
pub enum Asset {
    Stellar(String),
    Other(String),
}

/// The mathematical value of an [`Asset`].
pub enum AssetView {
    Stellar(Seq<char>),
    Other(Seq<char>),
}

impl View for Asset {
    type V = AssetView;

    open spec fn view(&self) -> AssetView {
        match self {
            Asset::Stellar(address) => AssetView::Stellar(address@),
            Asset::Other(symbol) => AssetView::Other(symbol@),
        }
    }
}

impl Clone for Asset {
    fn clone(&self) -> (copy: Self)
        ensures
            copy@ == self@,
    {
        match self {
            Asset::Stellar(address) => Asset::Stellar(address.clone()),
            Asset::Other(symbol) => Asset::Other(symbol.clone()),
        }
    }
}

impl PartialEq for Asset {
    fn eq(&self, other: &Asset) -> (same: bool) {
        match (self, other) {
            (Asset::Stellar(a), Asset::Stellar(b)) => *a == *b,
            (Asset::Other(a), Asset::Other(b)) => *a == *b,
            _ => false,
        }
    }
}

impl PartialEqSpecImpl for Asset {
    open spec fn obeys_eq_spec() -> bool {
        true
    }

    open spec fn eq_spec(&self, other: &Asset) -> bool {
        self@ == other@
    }
}

impl Eq for Asset {
}

/// How an asset is priced: what to ask the oracle for, which oracle, and how
/// far a price may move between two rounds.
#[derive(Debug)]
pub struct AssetConfig {
    /// The asset under which the oracle knows the price.
    pub asset: Asset,
    /// The position of the oracle in the oracle registry.
    pub oracle_index: u32,
    /// The largest accepted move against an older round, in percent. Outside
    /// 1..=99 the move is not examined.
    pub max_dev: u32,
}

/// The mathematical value of an [`AssetConfig`].
pub struct AssetConfigView {
    pub asset: AssetView,
    pub oracle_index: u32,
    pub max_dev: u32,
}

impl View for AssetConfig {
    type V = AssetConfigView;

    open spec fn view(&self) -> AssetConfigView {
        AssetConfigView {
            asset: self.asset@,
            oracle_index: self.oracle_index,
            max_dev: self.max_dev,
        }
    }
}

impl Clone for AssetConfig {
    fn clone(&self) -> (copy: Self)
        ensures
            copy@ == self@,
    {
        AssetConfig {
            asset: self.asset.clone(),
            oracle_index: self.oracle_index,
            max_dev: self.max_dev,
        }
    }
}

/// A registered oracle.
#[derive(Debug)]
pub struct OracleConfig {
    /// The address of the oracle.
    pub address: String,
    /// The position of the oracle in the oracle registry.
    pub index: u32,
    /// Seconds between two rounds of the oracle.
    pub resolution: u32,
    /// Decimals of the prices the oracle reports.
    pub decimals: u32,
}

/// The mathematical value of an [`OracleConfig`].
pub struct OracleConfigView {
    pub address: Seq<char>,
    pub index: u32,
    pub resolution: u32,
    pub decimals: u32,
}

impl View for OracleConfig {
    type V = OracleConfigView;

    open spec fn view(&self) -> OracleConfigView {
        OracleConfigView {
            address: self.address@,
            index: self.index,
            resolution: self.resolution,
            decimals: self.decimals,
        }
    }
}

impl Clone for OracleConfig {
    fn clone(&self) -> (copy: Self)
        ensures
            copy@ == self@,
    {
        OracleConfig {
            address: self.address.clone(),
            index: self.index,
            resolution: self.resolution,
            decimals: self.decimals,
        }
    }
}

/// The mathematical values of a list of assets, in its order.
pub open spec fn asset_views(list: Seq<Asset>) -> Seq<AssetView> {
    list.map_values(|asset: Asset| asset@)
}

/// Where `asset` first stands in `list`.
pub fn find_asset(list: &Vec<Asset>, asset: &Asset) -> (found: Option<usize>)
    ensures
        match found {
            Some(i) => asset_views(list@).index_of_first(asset@) == Some(i as int),
            None => asset_views(list@).index_of_first(asset@) is None,
        },
        found matches Some(i) ==> i < list.len() && list[i as int]@ == asset@,
        found is None <==> !asset_views(list@).contains(asset@),
{
    let ghost views = asset_views(list@);
    let mut i: usize = 0;
    while i < list.len()
        invariant
            i <= list.len(),
            views == asset_views(list@),
            forall|j: int| 0 <= j < i ==> views[j] != asset@,
        decreases list.len() - i,
    {
        if list[i] == *asset {
            proof {
                assert(views[i as int] == asset@);
                views.index_of_first_ensures(asset@);
            }
            return Some(i);
        }
        i = i + 1;
    }
    proof {
        views.index_of_first_ensures(asset@);
    }
    None
}

} // verus!
