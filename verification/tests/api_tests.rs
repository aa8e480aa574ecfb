use rginx_control::api::{build_events_url, encode_component, ApiError};

#[test]
fn events_url_has_no_query_without_filters() {
    assert_eq!(build_events_url(None, None, None), "/api/v1/events");
}

#[test]
fn events_url_joins_filters_in_order() {
    assert_eq!(
        build_events_url(Some("edge-1"), None, Some("dns_1")),
        "/api/v1/events?node_id=edge-1&dns_deployment_id=dns_1"
    );
    assert_eq!(
        build_events_url(Some("n"), Some("d"), Some("x")),
        "/api/v1/events?node_id=n&deployment_id=d&dns_deployment_id=x"
    );
}

#[test]
fn events_url_encodes_values() {
    assert_eq!(build_events_url(None, Some("a b&c"), None), "/api/v1/events?deployment_id=a%20b%26c");
}

#[test]
fn component_encoding_matches_encode_uri_component() {
    assert_eq!(encode_component("AZaz09-_.!~*'()"), "AZaz09-_.!~*'()");
    assert_eq!(encode_component("a/b?c=d#e"), "a%2Fb%3Fc%3Dd%23e");
    assert_eq!(encode_component("节点"), "%E8%8A%82%E7%82%B9");
    assert_eq!(encode_component(""), "");
}

#[test]
fn auth_errors_are_401_and_403() {
    assert!(ApiError::new(Some(401), "unauthorized").is_auth_error());
    assert!(ApiError::new(Some(403), "forbidden").is_auth_error());
    assert!(!ApiError::new(Some(500), "boom").is_auth_error());
    assert!(!ApiError::new(None, "offline").is_auth_error());
    assert_eq!(ApiError::new(None, "offline").message, "offline");
}
