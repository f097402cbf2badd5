use cloudapi_installr::config::{contains_text, InstallrConfig};
use cloudapi_installr::layout::Layout;
use cloudapi_installr::model::{ExtensionState, ExtensionStatus};

fn ext(uid: &str, id: &str, version: &str) -> ExtensionState {
    ExtensionState::stamped(uid, id, version, "2024-01-01T00:00:00+00:00".to_string())
}

fn uids(config: &InstallrConfig) -> Vec<String> {
    config.get_extensions().iter().map(|e| e.uid.clone()).collect()
}

#[test]
fn default_config_points_at_the_metadata_endpoint() {
    let config = InstallrConfig::default();
    assert_eq!(config.get_cloudapi_endpoint(), "http://169.254.169.254");
    assert_eq!(config.get_package_endpoint(), "http://169.254.169.254/package");
    assert_eq!(config.get_package_cache(), "/var/lib/cloud-api/package-cache");
    assert!(config.get_extensions().is_empty());
}

#[test]
fn default_config_follows_the_layout() {
    let config = InstallrConfig::default_in(&Layout::new("/srv/agent"));
    assert_eq!(config.get_package_cache(), "/srv/agent/package-cache");
    assert_eq!(config.get_cloudapi_endpoint(), "http://169.254.169.254");
    assert!(config.get_extensions().is_empty());
}

#[test]
fn add_extension_appends() {
    let mut config = InstallrConfig::default();
    config.add_extension(ext("a", "foo", "1"));
    config.add_extension(ext("b", "bar", "2"));
    assert_eq!(uids(&config), vec!["a", "b"]);
    assert_eq!(config.get_extensions()[1].id, "bar");
}

#[test]
fn remove_extension_drops_every_record_of_the_uid() {
    let mut config = InstallrConfig::default();
    config.add_extension(ext("a", "foo", "1"));
    config.add_extension(ext("b", "bar", "2"));
    config.add_extension(ext("a", "foo", "3"));
    config.add_extension(ext("c", "baz", "4"));
    config.remove_extension("a");
    assert_eq!(uids(&config), vec!["b", "c"]);
    config.remove_extension("missing");
    assert_eq!(uids(&config), vec!["b", "c"]);
    assert_eq!(config.get_cloudapi_endpoint(), "http://169.254.169.254");
}

#[test]
fn merge_replaces_in_place_and_appends_what_is_new() {
    let mut config = InstallrConfig::default();
    config.add_extension(ext("a", "foo", "1"));
    config.add_extension(ext("b", "bar", "1"));
    let mut updated = ext("a", "foo", "2");
    updated.set_status(ExtensionStatus::Installed);
    config.merge_extension_states(vec![ext("d", "qux", "1"), updated, ext("c", "baz", "1")]);
    assert_eq!(uids(&config), vec!["a", "b", "d", "c"]);
    assert_eq!(config.get_extensions()[0].version, "2");
    assert_eq!(config.get_extensions()[0].status, ExtensionStatus::Installed);
    assert_eq!(config.get_extensions()[1].version, "1");
    assert_eq!(config.get_cloudapi_endpoint(), "http://169.254.169.254");
}

#[test]
fn upsert_replaces_the_first_record_of_the_uid_and_drops_later_ones() {
    let mut config = InstallrConfig::default();
    config.add_extension(ext("x", "one", "1"));
    config.add_extension(ext("a", "foo", "1"));
    config.add_extension(ext("b", "bar", "1"));
    config.add_extension(ext("a", "foo", "2"));
    config.add_extension(ext("c", "baz", "1"));
    config.upsert_extension(ext("a", "foo", "3"));
    assert_eq!(uids(&config), vec!["x", "a", "b", "c"]);
    assert_eq!(config.get_extensions()[1].version, "3");
}

#[test]
fn upsert_appends_a_record_of_a_new_uid() {
    let mut config = InstallrConfig::default();
    config.upsert_extension(ext("a", "foo", "1"));
    config.upsert_extension(ext("b", "bar", "1"));
    assert_eq!(uids(&config), vec!["a", "b"]);
}

#[test]
fn merge_of_nothing_changes_nothing() {
    let mut config = InstallrConfig::default();
    config.add_extension(ext("a", "foo", "1"));
    let before = config.duplicate();
    config.merge_extension_states(Vec::new());
    assert_eq!(config, before);
}

#[test]
fn merge_keeps_the_last_of_two_incoming_records_of_one_uid() {
    let mut config = InstallrConfig::default();
    config.merge_extension_states(vec![ext("a", "foo", "1"), ext("a", "foo", "2")]);
    assert_eq!(uids(&config), vec!["a"]);
    assert_eq!(config.get_extensions()[0].version, "2");
}

#[test]
fn desired_package_ids_follow_the_list() {
    let mut config = InstallrConfig::default();
    let mut foo = ext("a", "foo", "1");
    foo.set_publisher("acme");
    config.add_extension(foo);
    config.add_extension(ext("b", "bar", "1"));
    assert_eq!(config.desired_package_ids(), vec!["acme-foo", "none-bar"]);
}

#[test]
fn contains_text_finds_exact_names() {
    let names = vec!["acme-foo".to_string(), "none-bar".to_string()];
    assert!(contains_text(&names, "none-bar"));
    assert!(!contains_text(&names, "none-ba"));
    assert!(!contains_text(&Vec::new(), "x"));
}

#[test]
fn duplicate_config_is_equal() {
    let mut config = InstallrConfig::default();
    config.add_extension(ext("a", "foo", "1"));
    assert_eq!(config.duplicate(), config);
}

#[test]
fn package_endpoint_of_the_desired_state_is_preferred() {
    let mut config = InstallrConfig::default();
    assert_eq!(config.package_endpoint, None);
    assert_eq!(config.get_package_endpoint(), "http://169.254.169.254/package");
    config.package_endpoint = Some("http://mirror/packages".to_string());
    assert_eq!(config.get_package_endpoint(), "http://mirror/packages");
    assert_eq!(config.get_cloudapi_endpoint(), "http://169.254.169.254");
    assert_eq!(config.duplicate(), config);
}
