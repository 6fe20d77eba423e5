use mcproxy::cors::cors_headers;

fn origins(v: &[&str]) -> Vec<String> {
    v.iter().map(|s| s.to_string()).collect()
}

#[test]
fn test_cors_headers() {
    let headers = cors_headers(true, &origins(&["*"]), &Some("https://example.com".to_string()));
    let names: Vec<&str> = headers.iter().map(|(k, _)| k.as_str()).collect();
    assert!(names.contains(&"access-control-allow-origin"));
    assert!(names.contains(&"access-control-allow-methods"));
    assert!(names.contains(&"access-control-allow-headers"));
    assert_eq!(headers[0].1, "*");
}

#[test]
fn cors_listed_origin_is_echoed_and_others_refused() {
    let allowed = origins(&["https://a.example", "https://b.example"]);
    let headers = cors_headers(true, &allowed, &Some("https://b.example".to_string()));
    assert_eq!(headers[0], ("access-control-allow-origin".to_string(), "https://b.example".to_string()));
    assert!(cors_headers(true, &allowed, &Some("https://c.example".to_string())).is_empty());
    assert!(cors_headers(true, &allowed, &None).is_empty());
}

#[test]
fn cors_disabled_sends_nothing() {
    assert!(cors_headers(false, &origins(&["*"]), &Some("https://example.com".to_string())).is_empty());
}
