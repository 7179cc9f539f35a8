use oracles::store::{object_keys, parse_endpoint, SettingError, DEFAULT_REGION};

#[test]
fn endpoint_setting_is_parsed() {
    assert!(matches!(parse_endpoint(None), Ok(None)));
    let parsed = parse_endpoint(Some("http://localhost:4566".to_string()))
        .expect("valid")
        .expect("some");
    assert_eq!(parsed.text(), "http://localhost:4566");
    let uri = parsed.into_uri();
    assert_eq!(uri.host(), Some("localhost"));
    assert_eq!(uri.port_u16(), Some(4566));
    assert!(matches!(parse_endpoint(Some(String::new())), Err(SettingError::InvalidUri)));
    assert!(matches!(parse_endpoint(Some("http://bad host".to_string())), Err(SettingError::InvalidUri)));
}

#[test]
fn listing_gives_keys() {
    assert_eq!(object_keys(None), Vec::<String>::new());
    let keys = object_keys(Some(vec![
        Some("cell_heartbeat.1658832527866.gz".to_string()),
        None,
        Some("cell_speedtest.1658834120042.gz".to_string()),
    ]));
    assert_eq!(
        keys,
        vec![
            "cell_heartbeat.1658832527866.gz".to_string(),
            String::new(),
            "cell_speedtest.1658834120042.gz".to_string()
        ]
    );
}

#[test]
fn default_region() {
    assert_eq!(DEFAULT_REGION, "us-west-2");
}
