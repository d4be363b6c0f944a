use wasserspiegel_core::cache::{sanitize_id, station_file_name, Cache, STATIONS_FILE};
use wasserspiegel_core::error::CoreError;

#[test]
fn unconfigured_cache_has_no_paths() {
    let c = Cache::default();
    assert!(matches!(
        c.path_for(STATIONS_FILE),
        Err(CoreError::Cache(m)) if m == "cache directory not configured"
    ));
}

#[test]
fn paths_join_like_path_join() {
    let mut c = Cache::default();
    c.set_dir("/var/cache/app".to_string());
    assert_eq!(c.path_for("stations.json").unwrap(), "/var/cache/app/stations.json");
    c.set_dir("/var/cache/app/".to_string());
    assert_eq!(c.path_for("stations.json").unwrap(), "/var/cache/app/stations.json");
    assert_eq!(c.path_for("/abs.json").unwrap(), "/abs.json");
    c.set_dir(String::new());
    assert_eq!(c.path_for("x.json").unwrap(), "x.json");
    let expected = std::path::PathBuf::from("/tmp/cache").join("station_a_b.json");
    c.set_dir("/tmp/cache".to_string());
    assert_eq!(
        std::path::PathBuf::from(c.path_for("station_a_b.json").unwrap()),
        expected
    );
}

#[test]
fn station_files_are_sanitized() {
    assert_eq!(sanitize_id("57090802-c51a_X"), "57090802-c51a_X");
    assert_eq!(sanitize_id("../etc/passwd"), "___etc_passwd");
    assert_eq!(sanitize_id("ä b"), "__b");
    assert_eq!(sanitize_id(&sanitize_id("a/b?c")), sanitize_id("a/b?c"));
    assert_eq!(station_file_name("../x"), "station____x.json");
}

#[test]
fn read_failures() {
    assert!(matches!(
        Cache::read_failure("stations.json", true, "gone"),
        CoreError::NotFound(m) if m == "no cached stations.json"
    ));
    assert!(matches!(
        Cache::read_failure("stations.json", false, "denied"),
        CoreError::Cache(m) if m == "failed to read stations.json: denied"
    ));
}
