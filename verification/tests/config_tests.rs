use range_proxy::config::ProxyConfig;

#[test]
fn stock_configuration_matches_the_documented_defaults() {
    let config = ProxyConfig::default();
    assert_eq!(config.port, 8080);
    assert_eq!(config.chunk_size, 10485760);
}

#[test]
fn zero_chunk_size_is_rejected() {
    assert!(ProxyConfig::new(8080, 0).is_none());
}

#[test]
fn positive_chunk_size_is_accepted() {
    let config = ProxyConfig::new(9000, 4096).unwrap();
    assert_eq!(config.port, 9000);
    assert_eq!(config.chunk_size, 4096);
}
