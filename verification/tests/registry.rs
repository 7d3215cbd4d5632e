use price_oracle::{has_asset, Address, Asset, AssetRegistry, Error, Symbol};

fn coded(code: &str) -> Asset {
    let mut bytes = [0u8; 32];
    bytes[..code.len()].copy_from_slice(code.as_bytes());
    Asset::Other(Symbol { code: bytes })
}

fn numbered(n: usize) -> Asset {
    let mut key = [0u8; 32];
    key[0] = (n % 256) as u8;
    key[1] = (n / 256) as u8;
    Asset::Stellar(Address::Contract(key))
}

#[test]
fn assets_compare_by_variant_and_bytes() {
    assert_eq!(coded("BTC"), coded("BTC"));
    assert_ne!(coded("BTC"), coded("ETH"));
    assert_ne!(coded("BTC"), coded("BTCX"));
    let key = [7u8; 32];
    assert_eq!(Address::Account(key), Address::Account(key));
    assert_ne!(Address::Account(key), Address::Contract(key));
    assert_ne!(Asset::Stellar(Address::Account(key)), Asset::Other(Symbol { code: key }));
    let mut other = key;
    other[31] = 8;
    assert_ne!(Address::Account(key), Address::Account(other));
    assert_ne!(Symbol { code: key }, Symbol { code: other });
}

#[test]
fn has_asset_finds_what_is_there() {
    let assets = vec![coded("BTC"), coded("ETH")];
    assert!(has_asset(&assets, &coded("BTC")));
    assert!(has_asset(&assets, &coded("ETH")));
    assert!(!has_asset(&assets, &coded("XLM")));
    assert!(!has_asset(&Vec::new(), &coded("BTC")));
}

#[test]
fn register_gives_indices_in_order() {
    let mut registry = AssetRegistry::new();
    assert_eq!(registry.len(), 0);
    assert_eq!(registry.register(&vec![coded("BTC"), coded("ETH")]), Ok(()));
    assert_eq!(registry.register(&vec![coded("XLM")]), Ok(()));
    assert_eq!(registry.index_of(&coded("BTC")), Some(0));
    assert_eq!(registry.index_of(&coded("ETH")), Some(1));
    assert_eq!(registry.index_of(&coded("XLM")), Some(2));
    assert_eq!(registry.index_of(&coded("USD")), None);
    assert_eq!(registry.list(), vec![coded("BTC"), coded("ETH"), coded("XLM")]);
    assert_eq!(registry.len(), 3);
}

#[test]
fn register_nothing_changes_nothing() {
    let mut registry = AssetRegistry::new();
    assert_eq!(registry.register(&Vec::new()), Ok(()));
    assert_eq!(registry.list(), Vec::new());
    assert_eq!(registry.register(&vec![coded("BTC")]), Ok(()));
    assert_eq!(registry.register(&Vec::new()), Ok(()));
    assert_eq!(registry.list(), vec![coded("BTC")]);
}

#[test]
fn register_refuses_a_registered_asset() {
    let mut registry = AssetRegistry::new();
    assert_eq!(registry.register(&vec![coded("BTC"), coded("ETH")]), Ok(()));
    assert_eq!(registry.register(&vec![coded("ETH")]), Err(Error::AssetAlreadyPresented));
    assert_eq!(
        registry.register(&vec![coded("XLM"), coded("BTC")]),
        Err(Error::AssetAlreadyPresented)
    );
    assert_eq!(registry.list(), vec![coded("BTC"), coded("ETH")]);
    assert_eq!(registry.index_of(&coded("XLM")), None);
}

#[test]
fn register_refuses_a_batch_that_repeats_itself() {
    let mut registry = AssetRegistry::new();
    assert_eq!(
        registry.register(&vec![coded("BTC"), coded("ETH"), coded("BTC")]),
        Err(Error::AssetAlreadyPresented)
    );
    assert_eq!(registry.len(), 0);
    assert_eq!(registry.index_of(&coded("BTC")), None);
    assert_eq!(registry.index_of(&coded("ETH")), None);
}

#[test]
fn register_up_to_the_last_index() {
    let mut registry = AssetRegistry::new();
    let all: Vec<Asset> = (0..256).map(numbered).collect();
    assert_eq!(registry.register(&all), Ok(()));
    assert_eq!(registry.len(), 256);
    assert_eq!(registry.index_of(&numbered(0)), Some(0));
    assert_eq!(registry.index_of(&numbered(255)), Some(255));
    assert_eq!(registry.register(&vec![numbered(256)]), Err(Error::AssetLimitExceeded));
    assert_eq!(registry.len(), 256);
    assert_eq!(registry.index_of(&numbered(256)), None);
}

#[test]
fn register_refuses_a_batch_that_is_too_long() {
    let mut registry = AssetRegistry::new();
    assert_eq!(registry.register(&vec![numbered(1000)]), Ok(()));
    let many: Vec<Asset> = (0..256).map(numbered).collect();
    assert_eq!(registry.register(&many), Err(Error::AssetLimitExceeded));
    assert_eq!(registry.list(), vec![numbered(1000)]);
}

#[test]
fn register_reports_a_repeat_before_the_limit() {
    let mut registry = AssetRegistry::new();
    let all: Vec<Asset> = (0..256).map(numbered).collect();
    assert_eq!(registry.register(&all), Ok(()));
    assert_eq!(registry.register(&vec![numbered(5)]), Err(Error::AssetAlreadyPresented));
    let mut long: Vec<Asset> = (300..600).map(numbered).collect();
    long.push(numbered(300));
    assert_eq!(registry.register(&long), Err(Error::AssetAlreadyPresented));
    assert_eq!(registry.len(), 256);
}

#[test]
fn index_is_stable_across_registrations() {
    let mut registry = AssetRegistry::new();
    assert_eq!(registry.register(&vec![numbered(1), numbered(2)]), Ok(()));
    for round in 0..20 {
        let batch = vec![numbered(100 + 2 * round), numbered(101 + 2 * round)];
        assert_eq!(registry.register(&batch), Ok(()));
        assert_eq!(registry.register(&batch), Err(Error::AssetAlreadyPresented));
        assert_eq!(registry.index_of(&numbered(1)), Some(0));
        assert_eq!(registry.index_of(&numbered(2)), Some(1));
        assert_eq!(registry.index_of(&numbered(100 + 2 * round)), Some(2 + 2 * round as u8));
    }
}
