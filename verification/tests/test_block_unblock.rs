use oracle_aggregator::contract::OracleAggregator;
use oracle_aggregator::errors::OracleAggregatorErrors;
use oracle_aggregator::mock_oracle::MockOracle;
use oracle_aggregator::types::Asset;

const START: u64 = 1441065600;

/// An aggregator of 7 decimals and a window of 900 seconds over two oracles,
/// with the three assets configured on them.
fn default_aggregator(
    base: &Asset,
    asset_0: &Asset,
    asset_1: &Asset,
    asset_2: &Asset,
) -> (OracleAggregator, Vec<MockOracle>) {
    let mut oracle_0_1 = MockOracle::new(
        "CORACLE01".to_string(),
        vec![asset_0.clone(), asset_1.clone()],
        9,
        300,
    );
    let mut oracle_2 = MockOracle::new("CORACLE2".to_string(), vec![asset_2.clone()], 6, 600);
    oracle_0_1.set_price(vec![0_110000000, 1_000000000], START);
    oracle_2.set_price(vec![1010_000000], START - 600);
    let feeds = vec![oracle_0_1, oracle_2];
    let mut aggregator =
        OracleAggregator::new("GADMIN".to_string(), base.clone(), 7, 900).unwrap();
    aggregator
        .add_oracle(&feeds, "CORACLE01".to_string())
        .unwrap();
    aggregator
        .add_oracle(&feeds, "CORACLE2".to_string())
        .unwrap();
    let id_0_1 = "CORACLE01".to_string();
    let id_2 = "CORACLE2".to_string();
    aggregator
        .add_asset(&feeds, START, asset_0.clone(), &id_0_1, asset_0.clone(), 0)
        .unwrap();
    aggregator
        .add_asset(&feeds, START, asset_1.clone(), &id_0_1, asset_1.clone(), 0)
        .unwrap();
    aggregator
        .add_asset(&feeds, START, asset_2.clone(), &id_2, asset_2.clone(), 0)
        .unwrap();
    (aggregator, feeds)
}

#[test]
fn test_block_unblock() {
    let now = START;
    let base = Asset::Other("BASE".to_string());
    let asset_0 = Asset::Stellar("CASSET0".to_string());
    let asset_1 = Asset::Stellar("CASSET1".to_string());
    let asset_2 = Asset::Other("wETH".to_string());

    let (mut aggregator, mut feeds) = default_aggregator(&base, &asset_0, &asset_1, &asset_2);
    feeds[0].set_price(vec![0_110000000, 1_000000000], now);
    feeds[1].set_price(vec![1010_000000], now - 600);

    let price = aggregator.lastprice(&feeds, &asset_0, now).unwrap();
    assert!(price.is_some());

    aggregator.block(&asset_0).unwrap();
    assert!(aggregator.is_blocked(&asset_0));
    let result = aggregator.lastprice(&feeds, &asset_0, now).err();
    assert_eq!(result, Some(OracleAggregatorErrors::AssetBlocked));

    aggregator.unblock(&asset_0).unwrap();
    assert!(!aggregator.is_blocked(&asset_0));
    let price = aggregator.lastprice(&feeds, &asset_0, now).unwrap();
    assert!(price.is_some());
}

#[test]
fn test_block_asset_not_found() {
    let base = Asset::Other("BASE".to_string());
    let asset_0 = Asset::Stellar("CASSET0".to_string());
    let asset_1 = Asset::Stellar("CASSET1".to_string());
    let asset_2 = Asset::Other("wETH".to_string());

    let (mut aggregator, _) = default_aggregator(&base, &asset_0, &asset_1, &asset_2);
    let asset = Asset::Other("NOT_FOUND".to_string());

    let before = aggregator.clone();
    assert_eq!(
        aggregator.block(&asset),
        Err(OracleAggregatorErrors::AssetNotFound)
    );
    assert_eq!(aggregator.assets(), before.assets());
}

#[test]
fn test_unblock_asset_not_found() {
    let base = Asset::Other("BASE".to_string());
    let asset_0 = Asset::Stellar("CASSET0".to_string());
    let asset_1 = Asset::Stellar("CASSET1".to_string());
    let asset_2 = Asset::Other("wETH".to_string());

    let (mut aggregator, _) = default_aggregator(&base, &asset_0, &asset_1, &asset_2);

    let asset = Asset::Other("NOT_FOUND".to_string());
    assert_eq!(
        aggregator.unblock(&asset),
        Err(OracleAggregatorErrors::AssetNotFound)
    );
}

#[test]
fn test_block_is_idempotent_and_spares_other_assets() {
    let now = START;
    let base = Asset::Other("BASE".to_string());
    let asset_0 = Asset::Stellar("CASSET0".to_string());
    let asset_1 = Asset::Stellar("CASSET1".to_string());
    let asset_2 = Asset::Other("wETH".to_string());

    let (mut aggregator, feeds) = default_aggregator(&base, &asset_0, &asset_1, &asset_2);
    aggregator.block(&asset_1).unwrap();
    aggregator.block(&asset_1).unwrap();
    assert_eq!(
        aggregator.lastprice(&feeds, &asset_1, now),
        Err(OracleAggregatorErrors::AssetBlocked)
    );
    assert!(aggregator.lastprice(&feeds, &asset_0, now).unwrap().is_some());
    assert!(aggregator.lastprice(&feeds, &asset_2, now).unwrap().is_some());
    // the base asset and pegged assets have no configuration to block
    assert_eq!(
        aggregator.block(&base),
        Err(OracleAggregatorErrors::AssetNotFound)
    );
    aggregator.unblock(&asset_1).unwrap();
    aggregator.unblock(&asset_1).unwrap();
    let price = aggregator.lastprice(&feeds, &asset_1, now).unwrap().unwrap();
    assert_eq!(price.price, 1_0000000);
}
