use wasserspiegel_core::client::{normalize_base, validate_station_id, Client};
use wasserspiegel_core::error::CoreError;
use wasserspiegel_core::models::ApiError;

#[test]
fn base_url_normalization() {
    assert_eq!(
        normalize_base("https://x.example/".into()).unwrap(),
        "https://x.example"
    );
    assert!(normalize_base("".into()).is_err());
    assert!(normalize_base("x.example".into()).is_err());
    // plain http is rejected - the token must not travel in cleartext
    assert!(normalize_base("http://x.example".into()).is_err());
}

#[test]
fn station_id_validation() {
    assert_eq!(
        validate_station_id("57090802-c51a-4d09-8340-b4453cd0e1f5").unwrap(),
        "57090802-c51a-4d09-8340-b4453cd0e1f5"
    );
    assert!(validate_station_id("").is_err());
    assert!(validate_station_id("../admin").is_err());
    assert!(validate_station_id("a?b").is_err());
    assert!(validate_station_id("a#b").is_err());
    assert!(validate_station_id("a b").is_err());
    let long = "a".repeat(65);
    assert!(validate_station_id(&long).is_err());
}

#[test]
fn client_rejects_bad_base_urls() {
    assert!(matches!(
        Client::new("not-a-url", "tok"),
        Err(CoreError::Config(_))
    ));
    assert!(Client::new(" https://x.example/ ", "tok").is_ok());
}

#[test]
fn normalize_base_error_messages() {
    match normalize_base("   ".into()) {
        Err(CoreError::Config(m)) => assert_eq!(m, "API base URL is empty"),
        other => panic!("unexpected {:?}", other),
    }
    match normalize_base(" http://x.example// ".into()) {
        Err(CoreError::Config(m)) => {
            assert_eq!(m, "API base URL must start with https://: http://x.example")
        }
        other => panic!("unexpected {:?}", other),
    }
    // only slashes left after trimming
    assert!(normalize_base("https://".into()).is_err());
    assert_eq!(
        normalize_base("\t https://a.example/api/// \n".into()).unwrap(),
        "https://a.example/api"
    );
}

#[test]
fn normalize_base_twice_is_once() {
    let once = normalize_base("  https://x.example//  ".into()).unwrap();
    let twice = normalize_base(once.clone()).unwrap();
    assert_eq!(once, twice);
    // a white space shielded by a trailing slash survives the first pass
    let shielded = normalize_base("https://a /".into()).unwrap();
    assert_eq!(shielded, "https://a ");
    assert_eq!(normalize_base(shielded).unwrap(), "https://a");
}

#[test]
fn station_id_error_quotes_the_id() {
    match validate_station_id("a\"b") {
        Err(CoreError::Config(m)) => assert_eq!(m, "invalid station id: \"a\\\"b\""),
        other => panic!("unexpected {:?}", other),
    }
    assert!(validate_station_id(&"a".repeat(64)).is_ok());
    assert!(validate_station_id("ä").is_err());
}

#[test]
fn client_urls_and_header() {
    let c = Client::new("https://api.example/", "secret").unwrap();
    assert_eq!(c.api_base(), "https://api.example");
    assert_eq!(c.stations_url(), "https://api.example/stations");
    assert_eq!(c.station_url("abc-1_2").unwrap(), "https://api.example/stations/abc-1_2");
    assert!(matches!(c.station_url("a/b"), Err(CoreError::Config(_))));
    assert_eq!(c.authorization(), "Bearer secret");
}

#[test]
fn rejected_config_keeps_client() {
    let mut c = Client::new("https://old.example", "old").unwrap();
    assert!(matches!(c.set_config("ftp://new.example", "new"), Err(CoreError::Config(_))));
    assert_eq!(c.api_base(), "https://old.example");
    assert_eq!(c.authorization(), "Bearer old");
    c.set_config("https://new.example/", "new").unwrap();
    assert_eq!(c.api_base(), "https://new.example");
    assert_eq!(c.authorization(), "Bearer new");
}

fn envelope(msg: &str) -> Option<ApiError> {
    Some(ApiError { error: msg.to_string() })
}

#[test]
fn error_body_mapping() {
    assert!(matches!(
        Client::map_error_body(401, envelope("bad token")),
        CoreError::Auth(m) if m == "bad token"
    ));
    assert!(matches!(
        Client::map_error_body(403, None),
        CoreError::Auth(m) if m == "HTTP 403"
    ));
    assert!(matches!(
        Client::map_error_body(500, envelope("Resource NOT FOUND: station")),
        CoreError::NotFound(m) if m == "Resource NOT FOUND: station"
    ));
    assert!(matches!(
        Client::map_error_body(502, envelope("upstream down")),
        CoreError::Server(502, m) if m == "upstream down"
    ));
    assert!(matches!(
        Client::map_error_body(500, envelope("")),
        CoreError::Server(500, m) if m == "HTTP 500"
    ));
    assert!(Client::response_error(200, None).is_none());
    assert!(Client::response_error(399, envelope("not found")).is_none());
    assert!(matches!(
        Client::response_error(404, envelope("not found")),
        Some(CoreError::NotFound(_))
    ));
}

#[test]
fn reply_classification_uses_given_lowercase() {
    assert!(matches!(
        Client::classify_reply(500, Some("X".into()), "resource not found"),
        CoreError::NotFound(m) if m == "X"
    ));
    assert!(matches!(
        Client::classify_reply(500, Some("resource not found".into()), "x"),
        CoreError::Server(500, _)
    ));
    assert!(matches!(
        Client::classify_reply(401, Some("not found".into()), "not found"),
        CoreError::Auth(_)
    ));
}

#[test]
fn agent_settings() {
    let c = Client::new("https://api.example", "t").unwrap();
    let config = c.agent().config();
    assert_eq!(config.max_redirects(), 0);
    assert!(!config.http_status_as_error());
    assert_eq!(config.timeouts().connect, Some(std::time::Duration::from_secs(15)));
    assert_eq!(config.timeouts().global, Some(std::time::Duration::from_secs(30)));
}
