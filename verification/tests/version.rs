use price_oracle::{major_of, PriceOracleContract};

#[test]
fn version_reads_the_leading_field() {
    assert_eq!(PriceOracleContract::version("1.2.3"), Some(1));
    assert_eq!(PriceOracleContract::version("2.0.0"), Some(2));
    assert_eq!(PriceOracleContract::version("10.4.1-rc.1"), Some(10));
    assert_eq!(PriceOracleContract::version("0.9.2"), Some(0));
}

#[test]
fn version_without_a_dot_is_one_field() {
    assert_eq!(PriceOracleContract::version("12"), Some(12));
    assert_eq!(PriceOracleContract::version("007"), Some(7));
}

#[test]
fn version_accepts_one_plus_sign() {
    assert_eq!(PriceOracleContract::version("+7.0"), Some(7));
    assert_eq!(PriceOracleContract::version("++7.0"), None);
    assert_eq!(PriceOracleContract::version("+.0"), None);
    assert_eq!(PriceOracleContract::version("+"), None);
}

#[test]
fn version_refuses_what_is_no_number() {
    assert_eq!(PriceOracleContract::version(""), None);
    assert_eq!(PriceOracleContract::version(".5"), None);
    assert_eq!(PriceOracleContract::version("x.1"), None);
    assert_eq!(PriceOracleContract::version("1x.2"), None);
    assert_eq!(PriceOracleContract::version("-1.2"), None);
    assert_eq!(PriceOracleContract::version(" 1.2"), None);
    assert_eq!(PriceOracleContract::version("\u{661}.2"), None);
}

#[test]
fn version_refuses_what_does_not_fit() {
    assert_eq!(PriceOracleContract::version("4294967295.0"), Some(u32::MAX));
    assert_eq!(PriceOracleContract::version("4294967296.0"), None);
    assert_eq!(PriceOracleContract::version("99999999999999999999999999.1"), None);
    assert_eq!(PriceOracleContract::version("42949672950"), None);
}

#[test]
fn version_agrees_with_the_standard_parse() {
    let samples = [
        "1.2.3", "0.0.0", "+3.1", "", ".", "..", "12", "4294967295", "4294967296", "a", "1a.0",
        "+", "-0.1", "00000000000000000001.5", "3.x", "9.", "+0",
    ];
    for sample in samples {
        let expected = sample.split('.').next().unwrap().parse::<u32>().ok();
        assert_eq!(major_of(sample.as_bytes()), expected, "{:?}", sample);
    }
}
