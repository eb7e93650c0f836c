use iptv_core::http::{method_of, normalize_base_url, request_headers, request_url, HttpMethod};

#[test]
fn normalize_base_url_adds_https_to_a_bare_host() {
    assert_eq!(normalize_base_url("iptv-org.github.io/api".to_string()), "https://iptv-org.github.io/api");
}

#[test]
fn normalize_base_url_keeps_http_and_https() {
    assert_eq!(normalize_base_url("http://127.0.0.1:8080".to_string()), "http://127.0.0.1:8080");
    assert_eq!(normalize_base_url("https://example.com".to_string()), "https://example.com");
}

#[test]
fn normalize_base_url_is_idempotent() {
    let once = normalize_base_url("example.com".to_string());
    let twice = normalize_base_url(once.clone());
    assert_eq!(once, twice);
}

#[test]
fn method_names_map_to_methods() {
    assert_eq!(method_of("GET"), HttpMethod::Get);
    assert_eq!(method_of("POST"), HttpMethod::Post);
    assert_eq!(method_of("PATCH"), HttpMethod::Patch);
    assert_eq!(method_of("PUT"), HttpMethod::Put);
    assert_eq!(method_of("DELETE"), HttpMethod::Get);
    assert_eq!(method_of("post"), HttpMethod::Get);
}

#[test]
fn request_url_joins_base_and_path() {
    assert_eq!(request_url("https://example.com", "/channels.json"), "https://example.com/channels.json");
}

#[test]
fn every_request_asks_for_and_sends_json() {
    assert_eq!(
        request_headers(),
        vec![
            ("Content-Type".to_string(), "application/json".to_string()),
            ("Accept".to_string(), "application/json".to_string()),
        ]
    );
}
