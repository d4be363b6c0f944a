use wasserspiegel_core::error::CoreError;

#[test]
fn error_texts() {
    assert_eq!(CoreError::Config("x".into()).to_string(), "configuration error: x");
    assert_eq!(CoreError::Auth("x".into()).to_string(), "authentication failed: x");
    assert_eq!(CoreError::NotFound("x".into()).to_string(), "not found: x");
    assert_eq!(CoreError::Server(503, "x".into()).to_string(), "server error 503: x");
    assert_eq!(CoreError::Server(7, "y".into()).to_string(), "server error 7: y");
    assert_eq!(CoreError::Network("x".into()).to_string(), "network error: x");
    assert_eq!(CoreError::Parse("x".into()).to_string(), "failed to parse response: x");
    assert_eq!(CoreError::Cache("x".into()).to_string(), "cache error: x");
}

#[test]
fn transport_errors_are_classified() {
    assert!(matches!(
        CoreError::from_transport(Some(401), "t".into()),
        CoreError::Auth(m) if m == "t"
    ));
    assert!(matches!(
        CoreError::from_transport(Some(403), "t".into()),
        CoreError::Auth(_)
    ));
    assert!(matches!(
        CoreError::from_transport(Some(500), "t".into()),
        CoreError::Server(500, _)
    ));
    assert!(matches!(
        CoreError::from_transport(None, "t".into()),
        CoreError::Network(_)
    ));
}

#[test]
fn outside_errors_convert() {
    let e = CoreError::from(ureq::Error::StatusCode(403));
    assert!(matches!(e, CoreError::Auth(_)));
    let e = CoreError::from(ureq::Error::StatusCode(502));
    assert!(matches!(e, CoreError::Server(502, _)));
    let e = CoreError::from(ureq::Error::HostNotFound);
    assert!(matches!(e, CoreError::Network(_)));
    let json_err = serde_json::from_str::<serde_json::Value>("{").unwrap_err();
    let text = json_err.to_string();
    assert!(matches!(CoreError::from(json_err), CoreError::Parse(m) if m == text));
}
