use cloudapi_installr::model::{ExtensionRunLog, ExtensionState, ExtensionStatus};

#[test]
fn new_extension_is_not_installed() {
    let state = ExtensionState::new("u-1", "foo", "1.0.0");
    assert_eq!(state.uid, "u-1");
    assert_eq!(state.id, "foo");
    assert_eq!(state.version, "1.0.0");
    assert_eq!(state.publisher, None);
    assert_eq!(state.config, None);
    assert_eq!(state.status, ExtensionStatus::NotInstalled);
    assert!(!state.modified_at.is_empty());
}

#[test]
fn new_extension_is_stamped_with_an_rfc3339_time() {
    let state = ExtensionState::new("u-1", "foo", "1.0.0");
    let stamp = state.modified_at.as_bytes();
    assert!(stamp.len() >= 20);
    assert_eq!(stamp[4], b'-');
    assert_eq!(stamp[7], b'-');
    assert_eq!(stamp[10], b'T');
    assert_eq!(stamp[13], b':');
    assert!(state.modified_at.ends_with("+00:00"));
}

#[test]
fn stamped_extension_keeps_the_given_time() {
    let state = ExtensionState::stamped("u-1", "foo", "1.0.0", "2024-01-01T00:00:00+00:00".to_string());
    assert_eq!(state.modified_at, "2024-01-01T00:00:00+00:00");
    assert_eq!(state.status, ExtensionStatus::NotInstalled);
}

#[test]
fn setters_change_one_field_each() {
    let mut state = ExtensionState::stamped("u-1", "foo", "1.0.0", "t".to_string());
    state.set_publisher("acme");
    assert_eq!(state.publisher, Some("acme".to_string()));
    assert_eq!(state.config, None);
    state.set_config("{\"a\":1}");
    assert_eq!(state.config, Some("{\"a\":1}".to_string()));
    assert_eq!(state.publisher, Some("acme".to_string()));
    state.set_status(ExtensionStatus::Installed);
    assert_eq!(state.status, ExtensionStatus::Installed);
    assert_eq!(state.uid, "u-1");
    assert_eq!(state.id, "foo");
    assert_eq!(state.version, "1.0.0");
    assert_eq!(state.modified_at, "t");
}

#[test]
fn package_id_joins_publisher_and_id() {
    let mut state = ExtensionState::stamped("u-1", "foo", "1.0.0", "t".to_string());
    assert_eq!(state.get_package_id(), "none-foo");
    state.set_publisher("acme");
    assert_eq!(state.get_package_id(), "acme-foo");
}

#[test]
fn status_names_are_snake_case() {
    assert_eq!(ExtensionStatus::NotInstalled.as_str(), "not_installed");
    assert_eq!(ExtensionStatus::Installing.as_str(), "installing");
    assert_eq!(ExtensionStatus::Installed.as_str(), "installed");
    assert_eq!(ExtensionStatus::Uninstalling.as_str(), "uninstalling");
    assert_eq!(ExtensionStatus::Uninstalled.as_str(), "uninstalled");
    assert_eq!(ExtensionStatus::Failed.as_str(), "failed");
    assert_eq!(ExtensionStatus::Disabled.as_str(), "disabled");
}

#[test]
fn inactive_statuses_block_installation() {
    assert!(ExtensionStatus::Uninstalling.blocks_install());
    assert!(ExtensionStatus::Uninstalled.blocks_install());
    assert!(ExtensionStatus::Disabled.blocks_install());
    assert!(!ExtensionStatus::NotInstalled.blocks_install());
    assert!(!ExtensionStatus::Installing.blocks_install());
    assert!(!ExtensionStatus::Installed.blocks_install());
    assert!(!ExtensionStatus::Failed.blocks_install());
}

#[test]
fn only_uninstalling_requests_removal() {
    assert!(ExtensionStatus::Uninstalling.requests_removal());
    assert!(!ExtensionStatus::Uninstalled.requests_removal());
    assert!(!ExtensionStatus::Disabled.requests_removal());
    assert!(!ExtensionStatus::Installed.requests_removal());
    let mut state = ExtensionState::stamped("u", "foo", "1", "t".to_string());
    assert!(state.is_active());
    assert!(!state.is_flagged_for_removal());
    state.set_status(ExtensionStatus::Uninstalling);
    assert!(!state.is_active());
    assert!(state.is_flagged_for_removal());
}

#[test]
fn duplicate_extension_is_equal() {
    let mut state = ExtensionState::stamped("u-1", "foo", "1.0.0", "t".to_string());
    state.set_publisher("acme");
    state.set_config("c");
    assert_eq!(state.duplicate(), state);
}

#[test]
fn run_log_records_exit_code_and_output() {
    let log = ExtensionRunLog::assemble("t0".to_string(), Some(3), b"out", b"err");
    assert_eq!(log.executed_at, "t0");
    assert_eq!(log.exit_code, 3);
    assert_eq!(log.stdout, "out");
    assert_eq!(log.stderr, "err");
}

#[test]
fn run_log_without_exit_code_records_minus_one() {
    let log = ExtensionRunLog::assemble("t0".to_string(), None, b"", b"");
    assert_eq!(log.exit_code, -1);
}

#[test]
fn run_log_replaces_malformed_output() {
    let log = ExtensionRunLog::assemble("t0".to_string(), Some(0), &[0x61, 0xff, 0x62], &[0xc3, 0xbc]);
    assert_eq!(log.stdout, "a\u{fffd}b");
    assert_eq!(log.stderr, "\u{fc}");
    assert_eq!(log.exit_code, 0);
}

#[test]
fn captured_run_log_is_stamped_now() {
    let log = ExtensionRunLog::capture(Some(0), b"ok", b"");
    assert_eq!(log.exit_code, 0);
    assert_eq!(log.stdout, "ok");
    assert_eq!(log.stderr, "");
    assert!(log.executed_at.ends_with("+00:00"));
}
