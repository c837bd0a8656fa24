use tempus::executor::{resolve_topic, validate_url};

#[test]
fn test_validate_url() {
    assert!(validate_url("https://example.com").is_ok());
    assert!(validate_url("http://example.com").is_ok());
    assert!(validate_url("").is_err());
    assert!(validate_url("ftp://example.com").is_err());
    assert!(validate_url("invalid-url").is_err());
}

#[test]
fn test_validate_url_messages() {
    match validate_url("") {
        Err(e) => assert_eq!(e.message().as_str(), "URL cannot be empty"),
        Ok(()) => panic!("empty URL accepted"),
    }
    match validate_url("ftp://example.com") {
        Err(e) => assert_eq!(e.message().as_str(), "URL must start with http:// or https://"),
        Ok(()) => panic!("ftp URL accepted"),
    }
}

#[test]
fn test_resolve_topic_uses_target_when_present() {
    assert_eq!(resolve_topic("orders", "tempus-events").as_str(), "orders");
}

#[test]
fn test_resolve_topic_falls_back_to_default() {
    assert_eq!(resolve_topic("", "tempus-events").as_str(), "tempus-events");
}
