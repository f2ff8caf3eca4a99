use vstd::prelude::*;

verus! {

/// Why a call on the aggregator was refused.
#[derive(Copy, Clone, Debug, PartialEq, Eq, Structural)]
pub enum OracleAggregatorErrors {
    /// A legacy entry point that is no longer served.
    NotImplemented,
    /// No price could be obtained for the asset on the oracle it names.
    InvalidAssetOracle,
    /// The registry that the call would extend is at capacity.
    MaxAssetsExceeded,
    /// The asset is already the base asset, pegged or configured.
    AssetExists,
    /// The asset has no configuration.
    AssetNotFound,
    /// The staleness window is outside the accepted range.
    InvalidMaxAge,
    /// The oracle is already registered.
    OracleExists,
    /// No registered oracle has this address or index.
    OracleNotFound,
    /// The oracle registry is at capacity.
    MaxOraclesExceeded,
    /// Price reads of the asset are administratively disabled.
    AssetBlocked,
}

impl OracleAggregatorErrors {
    /// The number under which the error kind is reported to a caller.
    pub open spec fn spec_code(self) -> u32 {
        match self {
            OracleAggregatorErrors::NotImplemented => 100,
            OracleAggregatorErrors::InvalidAssetOracle => 101,
            OracleAggregatorErrors::MaxAssetsExceeded => 102,
            OracleAggregatorErrors::AssetExists => 103,
            OracleAggregatorErrors::AssetNotFound => 104,
            OracleAggregatorErrors::InvalidMaxAge => 105,
            OracleAggregatorErrors::OracleExists => 106,
            OracleAggregatorErrors::OracleNotFound => 107,
            OracleAggregatorErrors::MaxOraclesExceeded => 108,
            OracleAggregatorErrors::AssetBlocked => 109,
        }
    }

    #[verifier::when_used_as_spec(spec_code)]
    pub fn code(self) -> (c: u32)
        ensures
            c == self.spec_code(),
    {
        match self {
            OracleAggregatorErrors::NotImplemented => 100,
            OracleAggregatorErrors::InvalidAssetOracle => 101,
            OracleAggregatorErrors::MaxAssetsExceeded => 102,
            OracleAggregatorErrors::AssetExists => 103,
            OracleAggregatorErrors::AssetNotFound => 104,
            OracleAggregatorErrors::InvalidMaxAge => 105,
            OracleAggregatorErrors::OracleExists => 106,
            OracleAggregatorErrors::OracleNotFound => 107,
            OracleAggregatorErrors::MaxOraclesExceeded => 108,
            OracleAggregatorErrors::AssetBlocked => 109,
        }
    }
}

} // verus!
