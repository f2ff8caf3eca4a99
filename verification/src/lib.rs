//! A price-oracle aggregator: registries of upstream oracles and assets, and
//! the engine that turns upstream observations into one normalized,
//! freshness- and deviation-bounded price.

pub mod errors;
pub mod types;
pub mod price_data;
pub mod resolver;
pub mod mock_oracle;
pub mod state;
pub mod contract;
pub mod laws;
pub mod circuit_breaker;
