use cloudapi_installr::config::InstallrConfig;
use cloudapi_installr::effect::{Action, Event, ManifestRead};
use cloudapi_installr::error::ExtensionError;
use cloudapi_installr::layout::Layout;
use cloudapi_installr::model::{ExtensionRunLog, ExtensionSpec, ExtensionState, ExtensionStatus};
use cloudapi_installr::uninstall::{
    clean_extension_dir, orphaned_directories, uninstall_extension, Removal, RemovalPlan,
    RemovalStep, Remover,
};

fn foo() -> ExtensionState {
    let mut state = ExtensionState::stamped("u-1", "foo", "1.0.0", "2024-01-01T00:00:00+00:00".to_string());
    state.set_publisher("acme");
    state.set_status(ExtensionStatus::Uninstalling);
    state
}

fn begin() -> Remover {
    let (remover, first) = uninstall_extension(&Layout::new("/r"), &foo());
    assert_eq!(first, Action::Probe { path: "/r/extensions/acme-foo".to_string() });
    remover
}

fn manifest(uninstall_script: Option<&str>) -> ManifestRead {
    ManifestRead::Parsed(ExtensionSpec {
        id: "foo".to_string(),
        publisher: "acme".to_string(),
        version: "1.0.0".to_string(),
        description: None,
        install_script: None,
        uninstall_script: uninstall_script.map(|s| s.to_string()),
        config_schema: None,
        one_time_script: None,
    })
}

fn perform(step: RemovalStep) -> Action {
    match step {
        RemovalStep::Perform(action) => action,
        RemovalStep::Finished(result) => panic!("ended with {:?}", result),
    }
}

fn probe(path: &str) -> Action {
    Action::Probe { path: path.to_string() }
}

fn run(path: &str) -> Action {
    Action::RunScript { path: path.to_string() }
}

fn log(code: i32) -> ExtensionRunLog {
    ExtensionRunLog::assemble("t".to_string(), Some(code), b"", b"")
}

const DELETE: &str = "/r/extensions/acme-foo";
const FALLBACK: &str = "/r/extensions/acme-foo/v1.0.0/uninstall.ps1";

fn delete() -> Action {
    Action::RemoveTree { path: DELETE.to_string() }
}

#[test]
fn plan_names_every_path_of_a_removal() {
    let plan = RemovalPlan::new(&Layout::new("/r"), &foo());
    assert_eq!(plan.extension_dir, "/r/extensions/acme-foo");
    assert_eq!(plan.version_dir, "/r/extensions/acme-foo/v1.0.0");
    assert_eq!(plan.manifest, "/r/extensions/acme-foo/v1.0.0/extension.spec");
    assert_eq!(plan.fallback_script, FALLBACK);
}

#[test]
fn absent_directory_is_a_success_without_effect() {
    let mut remover = begin();
    assert_eq!(remover.step(Event::Probed(false)), RemovalStep::Finished(Ok(Removal::AlreadyAbsent)));
    assert!(remover.is_finished());
}

#[test]
fn script_named_by_the_manifest_is_preferred() {
    let mut remover = begin();
    let next = perform(remover.step(Event::Probed(true)));
    assert_eq!(next, Action::ReadManifest { path: "/r/extensions/acme-foo/v1.0.0/extension.spec".to_string() });
    let next = perform(remover.step(Event::Manifest(manifest(Some("cleanup.ps1")))));
    assert_eq!(next, probe("/r/extensions/acme-foo/v1.0.0/cleanup.ps1"));
    let next = perform(remover.step(Event::Probed(true)));
    assert_eq!(next, run("/r/extensions/acme-foo/v1.0.0/cleanup.ps1"));
    let next = perform(remover.step(Event::ScriptFinished(Some(log(0)))));
    assert_eq!(next, delete());
    assert_eq!(remover.step(Event::Removed(true)), RemovalStep::Finished(Ok(Removal::Removed)));
}

#[test]
fn named_script_that_is_missing_falls_back() {
    let mut remover = begin();
    perform(remover.step(Event::Probed(true)));
    perform(remover.step(Event::Manifest(manifest(Some("cleanup.ps1")))));
    let next = perform(remover.step(Event::Probed(false)));
    assert_eq!(next, probe(FALLBACK));
    let next = perform(remover.step(Event::Probed(true)));
    assert_eq!(next, run(FALLBACK));
}

#[test]
fn manifest_without_script_falls_back() {
    for read in [manifest(None), manifest(Some("")), ManifestRead::Absent] {
        let mut remover = begin();
        perform(remover.step(Event::Probed(true)));
        let next = perform(remover.step(Event::Manifest(read)));
        assert_eq!(next, probe(FALLBACK));
    }
}

#[test]
fn directory_without_any_script_is_deleted() {
    let mut remover = begin();
    perform(remover.step(Event::Probed(true)));
    perform(remover.step(Event::Manifest(ManifestRead::Absent)));
    let next = perform(remover.step(Event::Probed(false)));
    assert_eq!(next, delete());
    assert_eq!(remover.step(Event::Removed(true)), RemovalStep::Finished(Ok(Removal::Removed)));
}

#[test]
fn failing_script_does_not_stop_the_deletion() {
    for outcome in [Some(log(1)), None] {
        let mut remover = begin();
        perform(remover.step(Event::Probed(true)));
        perform(remover.step(Event::Manifest(ManifestRead::Absent)));
        perform(remover.step(Event::Probed(true)));
        let next = perform(remover.step(Event::ScriptFinished(outcome)));
        assert_eq!(next, delete());
        assert_eq!(
            remover.step(Event::Removed(true)),
            RemovalStep::Finished(Ok(Removal::RemovedAfterFailedScript))
        );
    }
}

#[test]
fn invalid_manifest_falls_back() {
    let mut remover = begin();
    perform(remover.step(Event::Probed(true)));
    let next = perform(remover.step(Event::Manifest(ManifestRead::Invalid)));
    assert_eq!(next, probe(FALLBACK));
}

#[test]
fn deletion_that_fails_is_reported() {
    let mut remover = begin();
    perform(remover.step(Event::Probed(true)));
    perform(remover.step(Event::Manifest(ManifestRead::Absent)));
    perform(remover.step(Event::Probed(false)));
    assert_eq!(remover.step(Event::Removed(false)), RemovalStep::Finished(Err(ExtensionError::RemoveFailed)));
}

#[test]
fn event_of_another_kind_ends_the_removal() {
    let mut remover = begin();
    assert_eq!(remover.step(Event::Removed(true)), RemovalStep::Finished(Err(ExtensionError::UnexpectedEvent)));
    assert_eq!(remover.step(Event::Probed(true)), RemovalStep::Finished(Err(ExtensionError::UnexpectedEvent)));
}

#[test]
fn orphans_are_the_listed_names_that_are_not_desired() {
    let desired = vec!["acme-foo".to_string(), "none-bar".to_string()];
    let listed = vec!["zzz".to_string(), "acme-foo".to_string(), "old".to_string(), "none-bar".to_string()];
    assert_eq!(orphaned_directories(&desired, listed), vec!["zzz", "old"]);
    assert_eq!(orphaned_directories(&desired, Vec::new()), Vec::<String>::new());
    assert_eq!(orphaned_directories(&Vec::new(), vec!["a".to_string()]), vec!["a"]);
}

#[test]
fn extension_that_is_being_removed_is_no_orphan() {
    let mut config = InstallrConfig::default();
    config.add_extension(foo());
    let listed = vec!["acme-foo".to_string(), "acme-old".to_string()];
    assert_eq!(clean_extension_dir(&config, listed), vec!["acme-old"]);
}
