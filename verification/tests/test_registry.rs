use oracle_aggregator::contract::{OracleAggregator, PriceSource};
use oracle_aggregator::errors::OracleAggregatorErrors;
use oracle_aggregator::mock_oracle::MockOracle;
use oracle_aggregator::types::{Asset, AssetConfig, OracleConfig, PriceData};

const NOW: u64 = 1441065600;

fn other(symbol: &str) -> Asset {
    Asset::Other(symbol.to_string())
}

fn oracle(address: &str, index: u32) -> OracleConfig {
    OracleConfig {
        address: address.to_string(),
        index,
        resolution: 300,
        decimals: 9,
    }
}

fn config(asset: &Asset, oracle_index: u32) -> AssetConfig {
    AssetConfig {
        asset: asset.clone(),
        oracle_index,
        max_dev: 0,
    }
}

fn restore(
    oracles: Vec<OracleConfig>,
    base_assets: Vec<Asset>,
    assets: Vec<Asset>,
    configs: Vec<AssetConfig>,
    blocked: Vec<bool>,
) -> Option<OracleAggregator> {
    OracleAggregator::restore(
        "GADMIN".to_string(),
        other("BASE"),
        7,
        900,
        oracles,
        base_assets,
        assets,
        configs,
        blocked,
    )
}

#[test]
fn test_error_codes() {
    assert_eq!(OracleAggregatorErrors::NotImplemented.code(), 100);
    assert_eq!(OracleAggregatorErrors::InvalidAssetOracle.code(), 101);
    assert_eq!(OracleAggregatorErrors::MaxAssetsExceeded.code(), 102);
    assert_eq!(OracleAggregatorErrors::AssetExists.code(), 103);
    assert_eq!(OracleAggregatorErrors::AssetNotFound.code(), 104);
    assert_eq!(OracleAggregatorErrors::InvalidMaxAge.code(), 105);
    assert_eq!(OracleAggregatorErrors::OracleExists.code(), 106);
    assert_eq!(OracleAggregatorErrors::OracleNotFound.code(), 107);
    assert_eq!(OracleAggregatorErrors::MaxOraclesExceeded.code(), 108);
    assert_eq!(OracleAggregatorErrors::AssetBlocked.code(), 109);
}

#[test]
fn test_restore_round_trip() {
    let xlm = other("XLM");
    let eurc = other("EURC");
    let usdglo = other("USDGLO");
    let aggregator = restore(
        vec![oracle("CFIRST", 0), oracle("CSECOND", 1)],
        vec![usdglo.clone()],
        vec![xlm.clone(), eurc.clone()],
        vec![config(&xlm, 1), config(&eurc, 0)],
        vec![false, true],
    )
    .unwrap();
    assert_eq!(aggregator.admin(), "GADMIN");
    assert_eq!(aggregator.base(), other("BASE"));
    assert_eq!(aggregator.decimals(), 7);
    assert_eq!(aggregator.max_age(), 900);
    assert_eq!(aggregator.oracles().len(), 2);
    assert_eq!(aggregator.oracles()[1].address, "CSECOND");
    assert_eq!(aggregator.base_assets(), vec![usdglo.clone()]);
    assert_eq!(aggregator.assets(), vec![usdglo, xlm.clone(), eurc.clone()]);
    assert_eq!(aggregator.blocked(), vec![false, true]);
    assert!(!aggregator.is_blocked(&xlm));
    assert!(aggregator.is_blocked(&eurc));
    assert!(!aggregator.is_blocked(&other("NOT_FOUND")));
    assert_eq!(aggregator.config(&xlm).unwrap().oracle_index, 1);
    assert!(aggregator.config(&other("NOT_FOUND")).is_none());
    let pairs = aggregator.asset_configs();
    assert_eq!(pairs.len(), 2);
    assert_eq!(pairs[1].0, eurc);
    assert_eq!(pairs[1].1.oracle_index, 0);
}

#[test]
fn test_restore_refuses_inconsistent_parts() {
    let xlm = other("XLM");
    let eurc = other("EURC");
    let base = other("BASE");
    let two = || vec![oracle("CFIRST", 0), oracle("CSECOND", 1)];
    // what is consistent
    assert!(restore(two(), vec![], vec![xlm.clone()], vec![config(&xlm, 1)], vec![false]).is_some());
    assert!(restore(vec![], vec![], vec![], vec![], vec![]).is_some());
    // an oracle that does not stand at its index
    assert!(restore(vec![oracle("CFIRST", 1)], vec![], vec![], vec![], vec![]).is_none());
    // two oracles at one address
    assert!(restore(
        vec![oracle("CFIRST", 0), oracle("CFIRST", 1)],
        vec![],
        vec![],
        vec![],
        vec![]
    )
    .is_none());
    // a configuration on an oracle that is not registered
    assert!(restore(two(), vec![], vec![xlm.clone()], vec![config(&xlm, 2)], vec![false]).is_none());
    // an asset that is configured twice
    assert!(restore(
        two(),
        vec![],
        vec![xlm.clone(), xlm.clone()],
        vec![config(&xlm, 0), config(&xlm, 1)],
        vec![false, false]
    )
    .is_none());
    // an asset that is pegged twice
    assert!(restore(two(), vec![eurc.clone(), eurc.clone()], vec![], vec![], vec![]).is_none());
    // an asset that is pegged and configured
    assert!(restore(
        two(),
        vec![xlm.clone()],
        vec![xlm.clone()],
        vec![config(&xlm, 0)],
        vec![false]
    )
    .is_none());
    // the base asset among the pegged or the configured assets
    assert!(restore(two(), vec![base.clone()], vec![], vec![], vec![]).is_none());
    assert!(restore(
        two(),
        vec![],
        vec![base.clone()],
        vec![config(&base, 0)],
        vec![false]
    )
    .is_none());
    // lists that do not match in length
    assert!(restore(two(), vec![], vec![xlm.clone()], vec![], vec![false]).is_none());
    assert!(restore(two(), vec![], vec![xlm.clone()], vec![config(&xlm, 0)], vec![]).is_none());
    // registries beyond capacity
    let many: Vec<OracleConfig> = (0..11).map(|i| oracle(&format!("C{}", i), i)).collect();
    assert!(restore(many, vec![], vec![], vec![], vec![]).is_none());
    let pegged: Vec<Asset> = (0..11).map(|i| other(&format!("P{}", i))).collect();
    assert!(restore(two(), pegged, vec![], vec![], vec![]).is_none());
    let assets: Vec<Asset> = (0..21).map(|i| other(&format!("A{}", i))).collect();
    let configs: Vec<AssetConfig> = assets.iter().map(|asset| config(asset, 0)).collect();
    assert!(restore(two(), vec![], assets, configs, vec![false; 21]).is_none());
    // settings out of range
    let parts = |decimals: u32, max_age: u64| {
        OracleAggregator::restore(
            "GADMIN".to_string(),
            other("BASE"),
            decimals,
            max_age,
            vec![],
            vec![],
            vec![],
            vec![],
            vec![],
        )
    };
    assert!(parts(38, 360).is_some());
    assert!(parts(39, 360).is_none());
    assert!(parts(7, 359).is_none());
    assert!(parts(7, 3601).is_none());
}

#[test]
fn test_pegged_asset_always_resolves() {
    let pegged = other("USDGLO");
    for decimals in [0u32, 7, 38] {
        let mut aggregator =
            OracleAggregator::new("GADMIN".to_string(), other("BASE"), decimals, 900).unwrap();
        aggregator.add_base_asset(pegged.clone()).unwrap();
        // no oracle is there to answer
        let feeds: Vec<MockOracle> = Vec::new();
        for asset in [other("BASE"), pegged.clone()] {
            for now in [0u64, 1, NOW, u64::MAX] {
                assert_eq!(
                    aggregator.lastprice(&feeds, &asset, now),
                    Ok(Some(PriceData {
                        price: 10i128.pow(decimals),
                        timestamp: now
                    }))
                );
                match aggregator.price_source(&asset, now) {
                    Ok(PriceSource::Pegged(price)) => {
                        assert_eq!(price.price, 10i128.pow(decimals));
                        assert_eq!(price.timestamp, now);
                    }
                    _ => panic!("a pegged asset has its price"),
                }
            }
        }
    }
}

#[test]
fn test_price_source() {
    let xlm = other("XLM");
    let eurc = other("EURC");
    let aggregator = restore(
        vec![oracle("CFIRST", 0), oracle("CSECOND", 1)],
        vec![],
        vec![xlm.clone(), eurc.clone()],
        vec![config(&other("XLM_ON_ORACLE"), 1), config(&eurc, 0)],
        vec![false, true],
    )
    .unwrap();
    match aggregator.price_source(&xlm, NOW) {
        Ok(PriceSource::Oracle(oracle, config)) => {
            assert_eq!(oracle.address, "CSECOND");
            assert_eq!(oracle.index, 1);
            assert_eq!(config.asset, other("XLM_ON_ORACLE"));
        }
        _ => panic!("a configured asset is priced by its oracle"),
    }
    assert_eq!(
        aggregator.price_source(&eurc, NOW).err(),
        Some(OracleAggregatorErrors::AssetBlocked)
    );
    assert_eq!(
        aggregator.price_source(&other("NOT_FOUND"), NOW).err(),
        Some(OracleAggregatorErrors::AssetNotFound)
    );
    // the oracle of the asset is not among the feeds
    let feeds: Vec<MockOracle> = Vec::new();
    assert_eq!(
        aggregator.lastprice(&feeds, &xlm, NOW),
        Err(OracleAggregatorErrors::OracleNotFound)
    );
    // a blocked asset is refused before its oracle is looked for
    assert_eq!(
        aggregator.lastprice(&feeds, &eurc, NOW),
        Err(OracleAggregatorErrors::AssetBlocked)
    );
}

#[test]
fn test_blocked_asset_never_resolves() {
    let xlm = other("XLM");
    let mut feed = MockOracle::new("CFIRST".to_string(), vec![xlm.clone()], 9, 300);
    feed.set_price(vec![1_000_000_000], NOW);
    let feeds = vec![feed];
    let mut aggregator =
        OracleAggregator::new("GADMIN".to_string(), other("BASE"), 7, 900).unwrap();
    aggregator.add_oracle(&feeds, "CFIRST".to_string()).unwrap();
    aggregator
        .add_asset(&feeds, NOW, xlm.clone(), &"CFIRST".to_string(), xlm.clone(), 0)
        .unwrap();
    let price = aggregator.lastprice(&feeds, &xlm, NOW);
    assert!(price.clone().unwrap().is_some());

    aggregator.block(&xlm).unwrap();
    for now in [NOW, NOW + 900, NOW + 901] {
        assert_eq!(
            aggregator.lastprice(&feeds, &xlm, now),
            Err(OracleAggregatorErrors::AssetBlocked)
        );
    }
    aggregator.unblock(&xlm).unwrap();
    assert_eq!(aggregator.lastprice(&feeds, &xlm, NOW), price);
}

#[test]
fn test_mutual_exclusivity() {
    let xlm = other("XLM");
    let mut feed = MockOracle::new("CFIRST".to_string(), vec![xlm.clone()], 9, 300);
    feed.set_price(vec![1_000_000_000], NOW);
    let feeds = vec![feed];
    let id = "CFIRST".to_string();
    let mut aggregator =
        OracleAggregator::new("GADMIN".to_string(), other("BASE"), 7, 900).unwrap();
    aggregator.add_oracle(&feeds, id.clone()).unwrap();
    aggregator
        .add_asset(&feeds, NOW, xlm.clone(), &id, xlm.clone(), 0)
        .unwrap();

    // a configured asset cannot be pegged, nor configured again
    assert_eq!(
        aggregator.add_base_asset(xlm.clone()),
        Err(OracleAggregatorErrors::AssetExists)
    );
    assert_eq!(
        aggregator.add_asset(&feeds, NOW, xlm.clone(), &id, xlm.clone(), 0),
        Err(OracleAggregatorErrors::AssetExists)
    );
    // also not where the registries are full
    let mut full = aggregator.clone();
    for i in 0..10 {
        full.add_base_asset(other(&format!("P{}", i))).unwrap();
    }
    for i in 1..20 {
        let filler = other(&format!("A{}", i));
        let probe = Some(PriceData {
            price: 1,
            timestamp: NOW,
        });
        full.register_asset(filler.clone(), &id, filler, 0, probe)
            .unwrap();
    }
    assert_eq!(
        full.add_base_asset(xlm.clone()),
        Err(OracleAggregatorErrors::AssetExists)
    );
    assert_eq!(
        full.add_asset(&feeds, NOW, xlm.clone(), &id, xlm.clone(), 0),
        Err(OracleAggregatorErrors::AssetExists)
    );
    assert_eq!(
        full.add_asset(&feeds, NOW, other("BASE"), &id, xlm.clone(), 0),
        Err(OracleAggregatorErrors::AssetExists)
    );
    assert_eq!(
        full.add_base_asset(other("NEW")),
        Err(OracleAggregatorErrors::MaxAssetsExceeded)
    );
    assert_eq!(
        full.add_asset(&feeds, NOW, other("NEW"), &id, xlm.clone(), 0),
        Err(OracleAggregatorErrors::MaxAssetsExceeded)
    );
    assert_eq!(full.base_assets().len(), 10);
    assert_eq!(full.asset_configs().len(), 20);
    // no asset is listed twice
    let all = full.assets();
    for (i, asset) in all.iter().enumerate() {
        assert!(!all[..i].contains(asset));
        assert!(*asset != other("BASE"));
    }
}

#[test]
fn test_capacity_of_oracles() {
    let mut aggregator =
        OracleAggregator::new("GADMIN".to_string(), other("BASE"), 7, 900).unwrap();
    for i in 0..10 {
        assert_eq!(aggregator.check_oracle(&format!("C{}", i)), Ok(()));
        aggregator.register_oracle(format!("C{}", i), 300, 7).unwrap();
    }
    assert_eq!(
        aggregator.check_oracle(&"C10".to_string()),
        Err(OracleAggregatorErrors::MaxOraclesExceeded)
    );
    assert_eq!(
        aggregator.register_oracle("C10".to_string(), 300, 7),
        Err(OracleAggregatorErrors::MaxOraclesExceeded)
    );
    // an oracle that is registered is refused as such, full or not
    assert_eq!(
        aggregator.register_oracle("C3".to_string(), 300, 7),
        Err(OracleAggregatorErrors::OracleExists)
    );
    let oracles = aggregator.oracles();
    assert_eq!(oracles.len(), 10);
    for (i, oracle) in oracles.iter().enumerate() {
        assert_eq!(oracle.index as usize, i);
        assert_eq!(oracle.address, format!("C{}", i));
    }
}

#[test]
fn test_register_asset() {
    let xlm = other("XLM");
    let id = "CFIRST".to_string();
    let mut aggregator =
        OracleAggregator::new("GADMIN".to_string(), other("BASE"), 7, 900).unwrap();
    let probe = Some(PriceData {
        price: 42,
        timestamp: NOW,
    });
    // the oracle is not registered
    assert_eq!(
        aggregator.check_asset(&xlm, &id).err(),
        Some(OracleAggregatorErrors::OracleNotFound)
    );
    assert_eq!(
        aggregator.register_asset(xlm.clone(), &id, xlm.clone(), 5, probe),
        Err(OracleAggregatorErrors::OracleNotFound)
    );
    aggregator.register_oracle("CZEROTH".to_string(), 600, 6).unwrap();
    aggregator.register_oracle(id.clone(), 300, 9).unwrap();
    let found = aggregator.check_asset(&xlm, &id).unwrap();
    assert_eq!(found.index, 1);
    assert_eq!(found.resolution, 300);
    assert_eq!(found.decimals, 9);
    // the probe gave nothing
    assert_eq!(
        aggregator.register_asset(xlm.clone(), &id, xlm.clone(), 5, None),
        Err(OracleAggregatorErrors::InvalidAssetOracle)
    );
    assert!(aggregator.assets().is_empty());
    // the probe gave a price: it is handed back
    assert_eq!(
        aggregator.register_asset(xlm.clone(), &id, other("XLM_ON_ORACLE"), 5, probe),
        Ok(PriceData {
            price: 42,
            timestamp: NOW
        })
    );
    let config = aggregator.config(&xlm).unwrap();
    assert_eq!(config.asset, other("XLM_ON_ORACLE"));
    assert_eq!(config.oracle_index, 1);
    assert_eq!(config.max_dev, 5);
    assert!(!aggregator.is_blocked(&xlm));
}

#[test]
fn test_add_asset_without_history() {
    // an asset with a tolerance can be added while its oracle has a single
    // round; its price is reported once an older round confirms it
    let xlm = other("XLM");
    let mut feed = MockOracle::new("CFIRST".to_string(), vec![xlm.clone()], 9, 300);
    feed.set_price(vec![1_000_000_000], NOW);
    let mut feeds = vec![feed];
    let id = "CFIRST".to_string();
    let mut aggregator =
        OracleAggregator::new("GADMIN".to_string(), other("BASE"), 7, 900).unwrap();
    aggregator.add_oracle(&feeds, id.clone()).unwrap();
    assert_eq!(
        aggregator.add_asset(&feeds, NOW, xlm.clone(), &id, xlm.clone(), 10),
        Ok(PriceData {
            price: 1_0000000,
            timestamp: NOW
        })
    );
    assert_eq!(aggregator.lastprice(&feeds, &xlm, NOW), Ok(None));
    feeds[0].set_price(vec![1_050_000_000], NOW + 300);
    assert_eq!(
        aggregator.lastprice(&feeds, &xlm, NOW + 300),
        Ok(Some(PriceData {
            price: 1_0500000,
            timestamp: NOW + 300
        }))
    );
}

#[test]
fn test_add_oracle_needs_the_oracle() {
    let feeds: Vec<MockOracle> = Vec::new();
    let mut aggregator =
        OracleAggregator::new("GADMIN".to_string(), other("BASE"), 7, 900).unwrap();
    assert_eq!(
        aggregator.add_oracle(&feeds, "CFIRST".to_string()),
        Err(OracleAggregatorErrors::OracleNotFound)
    );
    assert!(aggregator.oracles().is_empty());
    // a registered oracle that is no longer there to answer
    aggregator.register_oracle("CFIRST".to_string(), 300, 9).unwrap();
    assert_eq!(
        aggregator.add_asset(
            &feeds,
            NOW,
            other("XLM"),
            &"CFIRST".to_string(),
            other("XLM"),
            0
        ),
        Err(OracleAggregatorErrors::OracleNotFound)
    );
}

#[test]
fn test_legacy_reads_are_not_implemented() {
    let aggregator = OracleAggregator::new("GADMIN".to_string(), other("BASE"), 7, 900).unwrap();
    assert_eq!(
        aggregator.price(&other("BASE"), NOW),
        Err(OracleAggregatorErrors::NotImplemented)
    );
    assert_eq!(
        aggregator.prices(&other("BASE"), 3),
        Err(OracleAggregatorErrors::NotImplemented)
    );
}

#[test]
fn test_checked_reads_report_overflow() {
    // an oracle of 0 decimals under an aggregator of 38: any price above 1
    // overflows when it is rescaled
    let xlm = other("XLM");
    let id = "CFIRST".to_string();
    let mut feeds = vec![MockOracle::new(id.clone(), vec![xlm.clone()], 0, 300)];
    let mut aggregator =
        OracleAggregator::new("GADMIN".to_string(), other("BASE"), 38, 900).unwrap();
    aggregator.add_oracle(&feeds, id.clone()).unwrap();

    feeds[0].set_price(vec![2], NOW);
    assert_eq!(
        aggregator.checked_add_asset(&feeds, NOW, xlm.clone(), &id, xlm.clone(), 0),
        None
    );
    assert!(aggregator.assets().is_empty());

    feeds[0].set_price(vec![1], NOW);
    let one = PriceData {
        price: 10i128.pow(38),
        timestamp: NOW,
    };
    assert_eq!(
        aggregator.checked_add_asset(&feeds, NOW, xlm.clone(), &id, xlm.clone(), 0),
        Some(Ok(one))
    );
    assert_eq!(aggregator.checked_lastprice(&feeds, &xlm, NOW), Some(Ok(Some(one))));
    assert_eq!(aggregator.lastprice(&feeds, &xlm, NOW), Ok(Some(one)));

    feeds[0].set_price(vec![-2], NOW + 300);
    assert_eq!(aggregator.checked_lastprice(&feeds, &xlm, NOW + 300), None);
    // refusals and pegged prices are reported as ever
    assert_eq!(
        aggregator.checked_lastprice(&feeds, &other("NOT_FOUND"), NOW),
        Some(Err(OracleAggregatorErrors::AssetNotFound))
    );
    assert_eq!(
        aggregator.checked_lastprice(&feeds, &other("BASE"), NOW),
        Some(Ok(Some(one)))
    );
    assert_eq!(
        aggregator.checked_add_asset(&feeds, NOW, xlm.clone(), &id, xlm.clone(), 0),
        Some(Err(OracleAggregatorErrors::AssetExists))
    );
}
