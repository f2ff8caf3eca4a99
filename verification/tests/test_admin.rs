use oracle_aggregator::contract::OracleAggregator;
use oracle_aggregator::errors::OracleAggregatorErrors;
use oracle_aggregator::mock_oracle::MockOracle;
use oracle_aggregator::types::{Asset, AssetConfig, OracleConfig, PriceData};

const START: u64 = 1441065600;

fn stellar(address: &str) -> Asset {
    Asset::Stellar(address.to_string())
}

fn assert_asset_config_equal(a: AssetConfig, b: AssetConfig) {
    assert_eq!(a.asset, b.asset);
    assert_eq!(a.oracle_index, b.oracle_index);
    assert_eq!(a.max_dev, b.max_dev);
}

fn assert_oracle_config_equal(a: OracleConfig, b: OracleConfig) {
    assert_eq!(a.address, b.address);
    assert_eq!(a.index, b.index);
    assert_eq!(a.resolution, b.resolution);
    assert_eq!(a.decimals, b.decimals);
}

/// Two oracles: one of 9 decimals and rounds of 300 seconds with two rounds
/// of prices for `assets`, one of 6 decimals and rounds of 600 seconds with
/// two rounds of prices for `wETH`.
fn deploy_oracles(now: u64, assets: Vec<Asset>) -> (Vec<MockOracle>, u64, u64) {
    let mut oracle_0_1 = MockOracle::new("CORACLE01".to_string(), assets, 9, 300);
    let oracle_0_1_norm_timestamp = now / 300 * 300;
    oracle_0_1.set_price(
        vec![1_300_000_055, 2223_421_213_231, 0_900_120_123],
        oracle_0_1_norm_timestamp - 300,
    );
    oracle_0_1.set_price(
        vec![1_200_000_055, 2123_421_213_231, 0_924_120_123],
        oracle_0_1_norm_timestamp,
    );

    let mut oracle_2 = MockOracle::new(
        "CORACLE2".to_string(),
        vec![Asset::Other("wETH".to_string())],
        6,
        600,
    );
    let oracle_2_norm_timestamp = now / 600 * 600;
    oracle_2.set_price(vec![0_994_120], oracle_2_norm_timestamp - 600);
    oracle_2.set_price(vec![1_024_025], oracle_2_norm_timestamp);
    (
        vec![oracle_0_1, oracle_2],
        oracle_0_1_norm_timestamp,
        oracle_2_norm_timestamp,
    )
}

#[test]
fn test_admin_actions() {
    let mut now = START;

    let admin = "GADMIN".to_string();
    let base = Asset::Other("BASE".to_string());
    let decimals = 7;
    let max_age = 900;

    let asset_0 = "CASSET0".to_string();
    let asset_1 = "CASSET1".to_string();
    let asset_2 = "CASSET2".to_string();
    let symbol_2 = "wETH".to_string();

    // deploy two mock oracles
    let oracle_0_1_id = "CORACLE01".to_string();
    let oracle_2_id = "CORACLE2".to_string();
    let (feeds, oracle_0_1_norm_timestamp, oracle_2_norm_timestamp) = deploy_oracles(
        now,
        vec![
            Asset::Stellar(asset_0.clone()),
            Asset::Stellar(asset_1.clone()),
            // this is added just to test edge cases but is not used
            Asset::Stellar(asset_2.clone()),
        ],
    );

    // deploy oracle aggregator
    let mut aggregator =
        OracleAggregator::new(admin.clone(), base.clone(), decimals, max_age).unwrap();
    assert_eq!(aggregator.base(), base);
    assert_eq!(aggregator.decimals(), 7);
    assert_eq!(aggregator.max_age(), 900);
    assert_eq!(aggregator.admin(), &admin);

    now += 10 * 5;

    // add oracle_0_1
    aggregator.add_oracle(&feeds, oracle_0_1_id.clone()).unwrap();
    let oracles = aggregator.oracles();
    assert_eq!(oracles.len(), 1);
    assert_oracle_config_equal(
        oracles[0].clone(),
        OracleConfig {
            address: oracle_0_1_id.clone(),
            index: 0,
            resolution: 300,
            decimals: 9,
        },
    );

    // add asset_0
    let result_0 = aggregator
        .add_asset(
            &feeds,
            now,
            Asset::Stellar(asset_0.clone()),
            &oracle_0_1_id,
            Asset::Stellar(asset_0.clone()),
            0,
        )
        .unwrap();
    assert_eq!(result_0.price, 1_200_000_0);
    assert_eq!(result_0.timestamp, oracle_0_1_norm_timestamp);
    let assets = aggregator.assets();
    assert_eq!(assets.len(), 1);
    assert_eq!(assets[0], Asset::Stellar(asset_0.clone()));
    let asset_0_config = aggregator.config(&Asset::Stellar(asset_0.clone())).unwrap();
    assert_asset_config_equal(
        asset_0_config,
        AssetConfig {
            asset: Asset::Stellar(asset_0.clone()),
            oracle_index: 0,
            max_dev: 0,
        },
    );

    // add asset_1
    let result_1 = aggregator
        .add_asset(
            &feeds,
            now,
            Asset::Stellar(asset_1.clone()),
            &oracle_0_1_id,
            Asset::Stellar(asset_1.clone()),
            15,
        )
        .unwrap();
    assert_eq!(result_1.price, 2123_421_213_2);
    assert_eq!(result_1.timestamp, oracle_0_1_norm_timestamp);
    let assets = aggregator.assets();
    assert_eq!(assets.len(), 2);
    assert_eq!(assets[0], Asset::Stellar(asset_0.clone()));
    assert_eq!(assets[1], Asset::Stellar(asset_1.clone()));
    let asset_1_config = aggregator.config(&Asset::Stellar(asset_1.clone())).unwrap();
    assert_asset_config_equal(
        asset_1_config,
        AssetConfig {
            asset: Asset::Stellar(asset_1.clone()),
            oracle_index: 0,
            max_dev: 15,
        },
    );

    // try and add asset_2 without the oracle existing
    let result_no_oracle = aggregator.add_asset(
        &feeds,
        now,
        Asset::Stellar(asset_2.clone()),
        &oracle_2_id,
        Asset::Other(symbol_2.clone()),
        0,
    );
    assert_eq!(
        result_no_oracle.err(),
        Some(OracleAggregatorErrors::OracleNotFound)
    );
    assert_eq!(OracleAggregatorErrors::OracleNotFound.code(), 107);

    // add oracle_2
    aggregator.add_oracle(&feeds, oracle_2_id.clone()).unwrap();
    let oracles = aggregator.oracles();
    assert_eq!(oracles.len(), 2);
    assert_oracle_config_equal(
        oracles[1].clone(),
        OracleConfig {
            address: oracle_2_id.clone(),
            index: 1,
            resolution: 600,
            decimals: 6,
        },
    );

    // try and add an incorrect config for asset_2
    let result_bad_config = aggregator.add_asset(
        &feeds,
        now,
        Asset::Stellar(asset_2.clone()),
        &oracle_2_id,
        Asset::Stellar(asset_2.clone()),
        0,
    );
    // - the oracle has no price for an asset it does not know
    assert_eq!(
        result_bad_config.err(),
        Some(OracleAggregatorErrors::InvalidAssetOracle)
    );
    assert_eq!(aggregator.assets().len(), 2);

    // try and add asset_2 when the list is full
    // - fill a copy of the aggregator up to the asset limit
    let mut full = aggregator.clone();
    for i in 2..20 {
        let asset = Asset::Stellar(format!("CFILLER{}", i));
        full.register_asset(
            asset.clone(),
            &oracle_0_1_id,
            asset,
            0,
            Some(PriceData {
                price: 1,
                timestamp: now,
            }),
        )
        .unwrap();
    }
    assert_eq!(full.asset_configs().len(), 20);
    // - do test
    let result_full = full.add_asset(
        &feeds,
        now,
        Asset::Stellar(asset_2.clone()),
        &oracle_2_id,
        Asset::Other(symbol_2.clone()),
        0,
    );
    assert_eq!(
        result_full.err(),
        Some(OracleAggregatorErrors::MaxAssetsExceeded)
    );
    assert_eq!(OracleAggregatorErrors::MaxAssetsExceeded.code(), 102);
    assert_eq!(full.asset_configs().len(), 20);

    // add asset_2
    let result_2 = aggregator
        .add_asset(
            &feeds,
            now,
            Asset::Stellar(asset_2.clone()),
            &oracle_2_id,
            Asset::Other(symbol_2.clone()),
            0,
        )
        .unwrap();
    assert_eq!(result_2.price, 1_024_0250);
    assert_eq!(result_2.timestamp, oracle_2_norm_timestamp);
    let assets = aggregator.assets();
    assert_eq!(assets.len(), 3);
    assert_eq!(assets[0], Asset::Stellar(asset_0.clone()));
    assert_eq!(assets[1], Asset::Stellar(asset_1.clone()));
    assert_eq!(assets[2], Asset::Stellar(asset_2.clone()));
    let asset_2_config = aggregator.config(&Asset::Stellar(asset_2.clone())).unwrap();
    assert_asset_config_equal(
        asset_2_config,
        AssetConfig {
            asset: Asset::Other(symbol_2.clone()),
            oracle_index: 1,
            max_dev: 0,
        },
    );

    // try and add a duplicate asset
    let result_dupe = aggregator.add_asset(
        &feeds,
        now,
        Asset::Stellar(asset_2.clone()),
        &oracle_0_1_id,
        Asset::Stellar(asset_2.clone()),
        0,
    );
    assert_eq!(result_dupe.err(), Some(OracleAggregatorErrors::AssetExists));
    assert_eq!(OracleAggregatorErrors::AssetExists.code(), 103);

    // a new admin takes over
    aggregator.set_admin("GNEWADMIN".to_string());
    assert_eq!(aggregator.admin(), "GNEWADMIN");
    assert_eq!(aggregator.assets().len(), 3);
}

#[test]
fn test_init_max_age_too_small() {
    let admin = "GADMIN".to_string();
    let base = Asset::Other("BASE".to_string());
    let decimals = 7;
    let max_age = 359;

    let result = OracleAggregator::new(admin, base, decimals, max_age);
    assert_eq!(result.err(), Some(OracleAggregatorErrors::InvalidMaxAge));
    assert_eq!(OracleAggregatorErrors::InvalidMaxAge.code(), 105);
}

#[test]
fn test_init_max_age_too_large() {
    let admin = "GADMIN".to_string();
    let base = Asset::Other("BASE".to_string());
    let decimals = 7;

    let result = OracleAggregator::new(admin.clone(), base.clone(), decimals, 359);
    assert_eq!(result.err(), Some(OracleAggregatorErrors::InvalidMaxAge));
    let result = OracleAggregator::new(admin, base, decimals, 3601);
    assert_eq!(result.err(), Some(OracleAggregatorErrors::InvalidMaxAge));
}

#[test]
fn test_init_max_age_bounds_are_accepted() {
    let base = Asset::Other("BASE".to_string());
    assert!(OracleAggregator::new("GADMIN".to_string(), base.clone(), 7, 360).is_ok());
    assert!(OracleAggregator::new("GADMIN".to_string(), base.clone(), 7, 3600).is_ok());
    assert!(OracleAggregator::new("GADMIN".to_string(), base, 38, 900).is_ok());
}

#[test]
fn test_oracles() {
    let mut now = START;

    let admin = "GADMIN".to_string();
    let base = Asset::Other("BASE".to_string());
    let decimals = 7;
    let max_age = 900;

    let asset_0 = "CASSET0".to_string();
    let asset_1 = "CASSET1".to_string();
    let asset_2 = "CASSET2".to_string();

    // deploy two mock oracles
    let oracle_0_1_id = "CORACLE01".to_string();
    let oracle_2_id = "CORACLE2".to_string();
    let (feeds, _, _) = deploy_oracles(
        now,
        vec![
            Asset::Stellar(asset_0.clone()),
            Asset::Stellar(asset_1.clone()),
            Asset::Stellar(asset_2.clone()),
        ],
    );

    // deploy oracle aggregator
    let mut aggregator =
        OracleAggregator::new(admin.clone(), base.clone(), decimals, max_age).unwrap();
    assert_eq!(aggregator.base(), base.clone());
    assert_eq!(aggregator.decimals(), 7);
    assert_eq!(aggregator.max_age(), 900);

    now += 10 * 5;
    assert!(now > START);

    // add oracle_0_1
    aggregator.add_oracle(&feeds, oracle_0_1_id.clone()).unwrap();
    let oracles = aggregator.oracles();
    assert_eq!(oracles.len(), 1);
    assert_oracle_config_equal(
        oracles[0].clone(),
        OracleConfig {
            address: oracle_0_1_id.clone(),
            index: 0,
            resolution: 300,
            decimals: 9,
        },
    );

    // try and oracle when the list is full
    // - fill a copy of the aggregator up to the oracle limit
    let mut full = aggregator.clone();
    for i in 1..10 {
        full.register_oracle(format!("CFILLER{}", i), 0, 0).unwrap();
    }
    assert_eq!(full.oracles().len(), 10);
    // - do test
    let result_full = full.add_oracle(&feeds, oracle_2_id.clone());
    assert_eq!(
        result_full.err(),
        Some(OracleAggregatorErrors::MaxOraclesExceeded)
    );
    assert_eq!(OracleAggregatorErrors::MaxOraclesExceeded.code(), 108);
    assert_eq!(full.oracles().len(), 10);

    // add oracle_2
    aggregator.add_oracle(&feeds, oracle_2_id.clone()).unwrap();
    let oracles = aggregator.oracles();
    assert_eq!(oracles.len(), 2);
    assert_oracle_config_equal(
        oracles[1].clone(),
        OracleConfig {
            address: oracle_2_id.clone(),
            index: 1,
            resolution: 600,
            decimals: 6,
        },
    );

    // attempt to add an existing oracle
    let result_existing = aggregator.add_oracle(&feeds, oracle_0_1_id.clone());
    assert_eq!(
        result_existing.err(),
        Some(OracleAggregatorErrors::OracleExists)
    );
    assert_eq!(OracleAggregatorErrors::OracleExists.code(), 106);

    // attempt to add an oracle that is not there to answer
    let result_bad_interface = aggregator.add_oracle(&feeds, "CAGGREGATOR2".to_string());
    assert!(result_bad_interface.is_err());
    assert_eq!(aggregator.oracles().len(), 2);
}

#[test]
fn test_base_assets() {
    let mut now = START;

    let admin = "GADMIN".to_string();
    let base = Asset::Other("BASE".to_string());
    let decimals = 7;
    let max_age = 900;

    let asset_0 = "CASSET0".to_string();
    let asset_1 = "CASSET1".to_string();
    let asset_2 = "CASSET2".to_string();
    let symbol_2 = "wETH".to_string();

    // deploy two mock oracles
    let oracle_0_1_id = "CORACLE01".to_string();
    let oracle_2_id = "CORACLE2".to_string();
    let (feeds, oracle_0_1_norm_timestamp, oracle_2_norm_timestamp) = deploy_oracles(
        now,
        vec![
            Asset::Stellar(asset_0.clone()),
            Asset::Stellar(asset_1.clone()),
        ],
    );

    // deploy oracle aggregator
    let mut aggregator =
        OracleAggregator::new(admin.clone(), base.clone(), decimals, max_age).unwrap();
    assert_eq!(aggregator.base(), base.clone());
    assert_eq!(aggregator.decimals(), 7);
    assert_eq!(aggregator.max_age(), 900);

    now += 10 * 5;

    // add both oracles
    aggregator.add_oracle(&feeds, oracle_0_1_id.clone()).unwrap();
    aggregator.add_oracle(&feeds, oracle_2_id.clone()).unwrap();

    // add asset_0
    aggregator
        .add_asset(
            &feeds,
            now,
            Asset::Stellar(asset_0.clone()),
            &oracle_0_1_id,
            Asset::Stellar(asset_0.clone()),
            0,
        )
        .unwrap();

    // add asset_1 as a base_asset
    aggregator
        .add_base_asset(Asset::Stellar(asset_1.clone()))
        .unwrap();
    let base_assets = aggregator.base_assets();
    assert_eq!(base_assets.len(), 1);
    assert_eq!(base_assets[0], Asset::Stellar(asset_1.clone()));
    let assets = aggregator.assets();
    assert_eq!(assets.len(), 2);
    assert_eq!(assets[0], Asset::Stellar(asset_1.clone()));
    assert_eq!(assets[1], Asset::Stellar(asset_0.clone()));

    now += 5;

    let base_price = aggregator
        .lastprice(&feeds, &Asset::Stellar(asset_1.clone()), now)
        .unwrap()
        .unwrap();
    assert_eq!(base_price.price, 1_0000000);
    assert_eq!(base_price.timestamp, now);

    // verify duplcate base asset cannot be added
    let result_dupe = aggregator.add_base_asset(Asset::Stellar(asset_1.clone()));
    assert_eq!(result_dupe.err(), Some(OracleAggregatorErrors::AssetExists));

    // verify real base asset cannot be added
    let result_base = aggregator.add_base_asset(base.clone());
    assert_eq!(result_base.err(), Some(OracleAggregatorErrors::AssetExists));

    let result_base_2 =
        aggregator.add_asset(&feeds, now, base.clone(), &oracle_0_1_id, base.clone(), 0);
    assert_eq!(
        result_base_2.err(),
        Some(OracleAggregatorErrors::AssetExists)
    );

    // verify max base assets is checked
    // - fill a copy of the aggregator up to the limit of base assets
    let mut full = aggregator.clone();
    for i in 1..10 {
        full.add_base_asset(Asset::Stellar(format!("CFILLER{}", i)))
            .unwrap();
    }
    assert_eq!(full.base_assets().len(), 10);
    let result_full = full.add_base_asset(Asset::Stellar(asset_2.clone()));
    assert_eq!(
        result_full.err(),
        Some(OracleAggregatorErrors::MaxAssetsExceeded)
    );
    assert_eq!(full.base_assets().len(), 10);

    // add asset_2 as a base_asset
    aggregator
        .add_base_asset(Asset::Stellar(asset_2.clone()))
        .unwrap();
    let base_assets = aggregator.base_assets();
    assert_eq!(base_assets.len(), 2);
    assert_eq!(base_assets[0], Asset::Stellar(asset_1.clone()));
    assert_eq!(base_assets[1], Asset::Stellar(asset_2.clone()));
    let assets = aggregator.assets();
    assert_eq!(assets.len(), 3);
    assert_eq!(assets[0], Asset::Stellar(asset_1.clone()));
    assert_eq!(assets[1], Asset::Stellar(asset_2.clone()));
    assert_eq!(assets[2], Asset::Stellar(asset_0.clone()));

    // verify asset_1 can be given a config
    aggregator
        .add_asset(
            &feeds,
            now,
            Asset::Stellar(asset_1.clone()),
            &oracle_0_1_id,
            Asset::Stellar(asset_1.clone()),
            0,
        )
        .unwrap();
    let asset_1_config = aggregator.config(&Asset::Stellar(asset_1.clone())).unwrap();
    assert_asset_config_equal(
        asset_1_config,
        AssetConfig {
            asset: Asset::Stellar(asset_1.clone()),
            oracle_index: 0,
            max_dev: 0,
        },
    );
    let base_assets = aggregator.base_assets();
    assert_eq!(base_assets.len(), 1);
    assert_eq!(base_assets[0], Asset::Stellar(asset_2.clone()));
    let assets = aggregator.assets();
    assert_eq!(assets.len(), 3);
    assert_eq!(assets[0], Asset::Stellar(asset_2.clone()));
    assert_eq!(assets[1], Asset::Stellar(asset_0.clone()));
    assert_eq!(assets[2], Asset::Stellar(asset_1.clone()));

    now += 5;

    // verify lastprice uses oracle
    let oracle_price = aggregator
        .lastprice(&feeds, &Asset::Stellar(asset_1.clone()), now)
        .unwrap()
        .unwrap();
    assert_eq!(oracle_price.price, 2123_421_213_2);
    assert_eq!(oracle_price.timestamp, oracle_0_1_norm_timestamp);

    // verify asset_1 cannot be reset as a base asset
    let result_base = aggregator.add_base_asset(Asset::Stellar(asset_1.clone()));
    assert_eq!(result_base.err(), Some(OracleAggregatorErrors::AssetExists));

    // verify asset_2 can be given a config
    aggregator
        .add_asset(
            &feeds,
            now,
            Asset::Stellar(asset_2.clone()),
            &oracle_2_id,
            Asset::Other(symbol_2.clone()),
            20,
        )
        .unwrap();
    let asset_2_config = aggregator.config(&Asset::Stellar(asset_2.clone())).unwrap();
    assert_asset_config_equal(
        asset_2_config,
        AssetConfig {
            asset: Asset::Other(symbol_2.clone()),
            oracle_index: 1,
            max_dev: 20,
        },
    );
    let base_assets = aggregator.base_assets();
    assert_eq!(base_assets.len(), 0);
    let assets = aggregator.assets();
    assert_eq!(assets.len(), 3);
    assert_eq!(assets[0], Asset::Stellar(asset_0.clone()));
    assert_eq!(assets[1], Asset::Stellar(asset_1.clone()));
    assert_eq!(assets[2], Asset::Stellar(asset_2.clone()));

    now += 5;

    // verify lastprice uses oracle
    let oracle_price = aggregator
        .lastprice(&feeds, &Asset::Stellar(asset_2.clone()), now)
        .unwrap()
        .unwrap();
    assert_eq!(oracle_price.price, 1_024_0250);
    assert_eq!(oracle_price.timestamp, oracle_2_norm_timestamp);
}
