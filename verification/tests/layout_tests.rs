use cloudapi_installr::constants::{DEFAULT_CLOUD_API_ROOT_DIR, WINDOWS_CLOUD_API_ROOT_DIR};
use cloudapi_installr::layout::{
    artifact_address, artifact_file_name, get_extensions_url, get_metadata_url, Layout,
};

#[test]
fn default_layout_is_below_the_default_root() {
    assert_eq!(DEFAULT_CLOUD_API_ROOT_DIR, "/var/lib/cloud-api");
    assert_eq!(WINDOWS_CLOUD_API_ROOT_DIR, "C:\\cloud-api");
    assert_eq!(Layout::default().root(), "/var/lib/cloud-api");
}

#[test]
fn directories_follow_the_on_disk_layout() {
    let layout = Layout::new("/srv/agent");
    assert_eq!(layout.extensions_root(), "/srv/agent/extensions");
    assert_eq!(layout.extension_dir("acme-foo"), "/srv/agent/extensions/acme-foo");
    assert_eq!(layout.version_dir("acme-foo", "1.0.0"), "/srv/agent/extensions/acme-foo/v1.0.0");
    assert_eq!(layout.version_marker("acme-foo"), "/srv/agent/extensions/acme-foo/VERSION");
    assert_eq!(layout.package_cache(), "/srv/agent/package-cache");
    assert_eq!(layout.config_file(), "/srv/agent/installr.config.json");
}

#[test]
fn required_directories_are_root_extensions_and_cache() {
    let layout = Layout::new("/r");
    assert_eq!(
        layout.required_directories(),
        vec!["/r".to_string(), "/r/extensions".to_string(), "/r/package-cache".to_string()]
    );
}

#[test]
fn artifact_name_is_package_id_version_and_suffix() {
    assert_eq!(artifact_file_name("acme-foo", "1.0.0"), "acme-foo-1.0.0.extpkg");
}

#[test]
fn artifact_address_drops_trailing_slashes_of_the_endpoint() {
    assert_eq!(
        artifact_address("http://169.254.169.254/package", "acme-foo-1.0.0.extpkg"),
        "http://169.254.169.254/package/acme-foo-1.0.0.extpkg"
    );
    assert_eq!(artifact_address("http://h/p///", "a.extpkg"), "http://h/p/a.extpkg");
    assert_eq!(artifact_address("", "a.extpkg"), "/a.extpkg");
    assert_eq!(artifact_address("///", "a.extpkg"), "/a.extpkg");
}

#[test]
fn metadata_addresses_are_below_the_endpoint() {
    assert_eq!(get_metadata_url("http://169.254.169.254"), "http://169.254.169.254/cloud-api/v1/metadata");
    assert_eq!(
        get_extensions_url("http://169.254.169.254"),
        "http://169.254.169.254/cloud-api/v1/metadata/extensions"
    );
}
