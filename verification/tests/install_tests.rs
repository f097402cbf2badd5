use cloudapi_installr::archive::ExtractOp;
use cloudapi_installr::effect::{Action, Event, HttpResponse};
use cloudapi_installr::error::{ErrorKind, ExtensionError};
use cloudapi_installr::install::{
    install_or_update_extension, InstallPlan, InstallStep, Installer,
};
use cloudapi_installr::layout::Layout;
use cloudapi_installr::model::{ExtensionRunLog, ExtensionState};
use std::io::Write;

const FOO_1_0_0: &str = "66f24bd4d2dc90c5751266a66d19a5563ba2ec65a181047c39ca063957f7377c";

fn foo() -> ExtensionState {
    let mut state = ExtensionState::stamped("u-1", "foo", "1.0.0", "2024-01-01T00:00:00+00:00".to_string());
    state.set_publisher("acme");
    state
}

fn begin() -> (Installer, Action) {
    install_or_update_extension(&Layout::new("/r"), &foo(), "http://host/package/", "/r/package-cache").unwrap()
}

fn archive() -> Vec<u8> {
    let mut writer = zip::ZipWriter::new(std::io::Cursor::new(Vec::new()));
    writer.start_file("install.ps1", zip::write::FileOptions::default()).unwrap();
    writer.write_all(b"exit 0").unwrap();
    writer.finish().unwrap().into_inner()
}

fn perform(step: InstallStep) -> Action {
    match step {
        InstallStep::Perform(action) => action,
        InstallStep::Finished(result) => panic!("ended with {:?}", result),
    }
}

fn probe(path: &str) -> Action {
    Action::Probe { path: path.to_string() }
}

fn log(code: i32) -> ExtensionRunLog {
    ExtensionRunLog::assemble("2024-02-02T00:00:00+00:00".to_string(), Some(code), b"out", b"err")
}

/// Drives an installation up to the point where the archive is unpacked.
fn unpacked() -> Installer {
    let (mut installer, _) = begin();
    perform(installer.step(Event::Probed(true)));
    perform(installer.step(Event::Archive(Some(archive()))));
    let next = perform(installer.step(Event::Written(true)));
    assert_eq!(next, probe("/r/extensions/acme-foo/v1.0.0/install.ps1"));
    installer
}

#[test]
fn plan_names_every_path_of_an_installation() {
    let plan = InstallPlan::new(&Layout::new("/r"), &foo(), "abc".to_string(), "http://host/package/", "/cache");
    assert_eq!(plan.url, "http://host/package/acme-foo-1.0.0.extpkg");
    assert_eq!(plan.cache_path, "/cache/acme-foo-1.0.0.extpkg");
    assert_eq!(plan.target_dir, "/r/extensions/acme-foo/v1.0.0");
    assert_eq!(plan.script, "/r/extensions/acme-foo/v1.0.0/install.ps1");
    assert_eq!(plan.ran_marker, "/r/extensions/acme-foo/v1.0.0/ran.lock");
    assert_eq!(plan.run_log, "/r/extensions/acme-foo/v1.0.0/run-log.json");
    assert_eq!(plan.version_marker, "/r/extensions/acme-foo/VERSION");
    assert_eq!(plan.fingerprint, "abc");
}

#[test]
fn installation_begins_with_a_look_into_the_cache() {
    let (installer, first) = begin();
    assert_eq!(first, probe("/r/package-cache/acme-foo-1.0.0.extpkg"));
    assert_eq!(installer.plan.fingerprint, FOO_1_0_0);
    assert!(!installer.is_finished());
}

#[test]
fn fresh_install_fetches_unpacks_runs_and_records() {
    let (mut installer, _) = begin();
    let next = perform(installer.step(Event::Probed(false)));
    assert_eq!(next, Action::Download { url: "http://host/package/acme-foo-1.0.0.extpkg".to_string() });
    let body = archive();
    let next = perform(installer.step(Event::Downloaded(Some(HttpResponse { status: 200, body: body.clone() }))));
    assert_eq!(
        next,
        Action::StoreArtifact { path: "/r/package-cache/acme-foo-1.0.0.extpkg".to_string(), contents: body.clone() }
    );
    let next = perform(installer.step(Event::Written(true)));
    assert_eq!(next, Action::ReadArchive { path: "/r/package-cache/acme-foo-1.0.0.extpkg".to_string() });
    let next = perform(installer.step(Event::Archive(Some(body))));
    assert_eq!(
        next,
        Action::Unpack {
            target: "/r/extensions/acme-foo/v1.0.0".to_string(),
            ops: vec![ExtractOp::File {
                path: "/r/extensions/acme-foo/v1.0.0/install.ps1".to_string(),
                contents: b"exit 0".to_vec()
            }]
        }
    );
    let next = perform(installer.step(Event::Written(true)));
    assert_eq!(next, probe("/r/extensions/acme-foo/v1.0.0/install.ps1"));
    let next = perform(installer.step(Event::Probed(true)));
    assert_eq!(next, probe("/r/extensions/acme-foo/v1.0.0/ran.lock"));
    let next = perform(installer.step(Event::Probed(false)));
    assert_eq!(next, Action::RunScript { path: "/r/extensions/acme-foo/v1.0.0/install.ps1".to_string() });
    let next = perform(installer.step(Event::ScriptFinished(Some(log(0)))));
    assert_eq!(
        next,
        Action::WriteRunLog { path: "/r/extensions/acme-foo/v1.0.0/run-log.json".to_string(), log: log(0) }
    );
    let next = perform(installer.step(Event::Written(true)));
    assert_eq!(
        next,
        Action::WriteText {
            path: "/r/extensions/acme-foo/v1.0.0/ran.lock".to_string(),
            contents: "2024-02-02T00:00:00+00:00".to_string()
        }
    );
    let next = perform(installer.step(Event::Written(true)));
    assert_eq!(
        next,
        Action::WriteText { path: "/r/extensions/acme-foo/VERSION".to_string(), contents: FOO_1_0_0.to_string() }
    );
    assert_eq!(installer.step(Event::Written(true)), InstallStep::Finished(Ok(())));
    assert!(installer.is_finished());
}

#[test]
fn cached_archive_is_not_downloaded() {
    let (mut installer, _) = begin();
    let next = perform(installer.step(Event::Probed(true)));
    assert_eq!(next, Action::ReadArchive { path: "/r/package-cache/acme-foo-1.0.0.extpkg".to_string() });
}

#[test]
fn missing_script_goes_straight_to_the_version_marker() {
    let mut installer = unpacked();
    let next = perform(installer.step(Event::Probed(false)));
    assert_eq!(
        next,
        Action::WriteText { path: "/r/extensions/acme-foo/VERSION".to_string(), contents: FOO_1_0_0.to_string() }
    );
}

#[test]
fn script_that_has_run_is_not_run_again() {
    let mut installer = unpacked();
    perform(installer.step(Event::Probed(true)));
    let next = perform(installer.step(Event::Probed(true)));
    assert_eq!(
        next,
        Action::WriteText { path: "/r/extensions/acme-foo/VERSION".to_string(), contents: FOO_1_0_0.to_string() }
    );
    assert_eq!(installer.step(Event::Written(true)), InstallStep::Finished(Ok(())));
}

#[test]
fn failing_script_is_marked_as_run_and_fails_the_installation() {
    let mut installer = unpacked();
    perform(installer.step(Event::Probed(true)));
    perform(installer.step(Event::Probed(false)));
    let next = perform(installer.step(Event::ScriptFinished(Some(log(7)))));
    assert_eq!(
        next,
        Action::WriteRunLog { path: "/r/extensions/acme-foo/v1.0.0/run-log.json".to_string(), log: log(7) }
    );
    let next = perform(installer.step(Event::Written(true)));
    assert_eq!(
        next,
        Action::WriteText {
            path: "/r/extensions/acme-foo/v1.0.0/ran.lock".to_string(),
            contents: "2024-02-02T00:00:00+00:00".to_string()
        }
    );
    assert_eq!(
        installer.step(Event::Written(true)),
        InstallStep::Finished(Err(ExtensionError::ScriptFailed(7)))
    );
    assert!(installer.is_finished());
}

#[test]
fn script_that_cannot_be_started_fails_the_installation() {
    let mut installer = unpacked();
    perform(installer.step(Event::Probed(true)));
    perform(installer.step(Event::Probed(false)));
    assert_eq!(
        installer.step(Event::ScriptFinished(None)),
        InstallStep::Finished(Err(ExtensionError::ScriptNotStarted))
    );
}

#[test]
fn response_without_success_is_a_fetch_failure() {
    for status in [199u16, 300, 404, 500] {
        let (mut installer, _) = begin();
        perform(installer.step(Event::Probed(false)));
        assert_eq!(
            installer.step(Event::Downloaded(Some(HttpResponse { status, body: b"x".to_vec() }))),
            InstallStep::Finished(Err(ExtensionError::FetchRejected(status)))
        );
    }
    for status in [200u16, 204, 299] {
        let (mut installer, _) = begin();
        perform(installer.step(Event::Probed(false)));
        let next = perform(installer.step(Event::Downloaded(Some(HttpResponse { status, body: b"x".to_vec() }))));
        assert_eq!(
            next,
            Action::StoreArtifact { path: "/r/package-cache/acme-foo-1.0.0.extpkg".to_string(), contents: b"x".to_vec() }
        );
    }
}

#[test]
fn endpoint_without_response_is_a_fetch_failure() {
    let (mut installer, _) = begin();
    perform(installer.step(Event::Probed(false)));
    assert_eq!(installer.step(Event::Downloaded(None)), InstallStep::Finished(Err(ExtensionError::FetchFailed)));
}

#[test]
fn cache_that_cannot_be_written_fails_the_installation() {
    let (mut installer, _) = begin();
    perform(installer.step(Event::Probed(false)));
    perform(installer.step(Event::Downloaded(Some(HttpResponse { status: 200, body: archive() }))));
    assert_eq!(installer.step(Event::Written(false)), InstallStep::Finished(Err(ExtensionError::CacheWriteFailed)));
}

#[test]
fn archive_failures_end_the_installation() {
    let (mut installer, _) = begin();
    perform(installer.step(Event::Probed(true)));
    assert_eq!(installer.step(Event::Archive(None)), InstallStep::Finished(Err(ExtensionError::ArchiveUnreadable)));

    let (mut installer, _) = begin();
    perform(installer.step(Event::Probed(true)));
    assert_eq!(
        installer.step(Event::Archive(Some(b"garbage".to_vec()))),
        InstallStep::Finished(Err(ExtensionError::ArchiveCorrupt))
    );

    let mut writer = zip::ZipWriter::new(std::io::Cursor::new(Vec::new()));
    writer.start_file("../VERSION", zip::write::FileOptions::default()).unwrap();
    writer.write_all(b"forged").unwrap();
    let forged = writer.finish().unwrap().into_inner();
    let (mut installer, _) = begin();
    perform(installer.step(Event::Probed(true)));
    assert_eq!(
        installer.step(Event::Archive(Some(forged))),
        InstallStep::Finished(Err(ExtensionError::UnsafeEntryPath(0)))
    );

    let (mut installer, _) = begin();
    perform(installer.step(Event::Probed(true)));
    perform(installer.step(Event::Archive(Some(archive()))));
    assert_eq!(installer.step(Event::Written(false)), InstallStep::Finished(Err(ExtensionError::UnpackFailed)));
}

#[test]
fn write_failures_end_the_installation() {
    let mut installer = unpacked();
    perform(installer.step(Event::Probed(true)));
    perform(installer.step(Event::Probed(false)));
    perform(installer.step(Event::ScriptFinished(Some(log(0)))));
    assert_eq!(installer.step(Event::Written(false)), InstallStep::Finished(Err(ExtensionError::RunLogWriteFailed)));

    let mut installer = unpacked();
    perform(installer.step(Event::Probed(true)));
    perform(installer.step(Event::Probed(false)));
    perform(installer.step(Event::ScriptFinished(Some(log(0)))));
    perform(installer.step(Event::Written(true)));
    assert_eq!(
        installer.step(Event::Written(false)),
        InstallStep::Finished(Err(ExtensionError::RanMarkerWriteFailed))
    );

    let mut installer = unpacked();
    perform(installer.step(Event::Probed(false)));
    assert_eq!(
        installer.step(Event::Written(false)),
        InstallStep::Finished(Err(ExtensionError::VersionMarkerWriteFailed))
    );
}

#[test]
fn event_of_another_kind_ends_the_installation() {
    let (mut installer, _) = begin();
    assert_eq!(installer.step(Event::Written(true)), InstallStep::Finished(Err(ExtensionError::UnexpectedEvent)));
    assert_eq!(installer.step(Event::Probed(true)), InstallStep::Finished(Err(ExtensionError::UnexpectedEvent)));
}

#[test]
fn failures_fall_into_their_classes() {
    assert_eq!(ExtensionError::Canonicalization.kind(), ErrorKind::Config);
    assert_eq!(ExtensionError::FetchFailed.kind(), ErrorKind::Fetch);
    assert_eq!(ExtensionError::FetchRejected(404).kind(), ErrorKind::Fetch);
    assert_eq!(ExtensionError::ArchiveCorrupt.kind(), ErrorKind::Extract);
    assert_eq!(ExtensionError::UnsafeEntryPath(3).kind(), ErrorKind::Extract);
    assert_eq!(ExtensionError::ScriptNotStarted.kind(), ErrorKind::Script);
    assert_eq!(ExtensionError::ScriptFailed(1).kind(), ErrorKind::Script);
    assert_eq!(ExtensionError::MarkerUnreadable.kind(), ErrorKind::Filesystem);
    assert_eq!(ExtensionError::CacheWriteFailed.kind(), ErrorKind::Filesystem);
    assert_eq!(ExtensionError::ArchiveUnreadable.kind(), ErrorKind::Filesystem);
    assert_eq!(ExtensionError::UnpackFailed.kind(), ErrorKind::Filesystem);
    assert_eq!(ExtensionError::RunLogWriteFailed.kind(), ErrorKind::Filesystem);
    assert_eq!(ExtensionError::RanMarkerWriteFailed.kind(), ErrorKind::Filesystem);
    assert_eq!(ExtensionError::VersionMarkerWriteFailed.kind(), ErrorKind::Filesystem);
    assert_eq!(ExtensionError::RemoveFailed.kind(), ErrorKind::Filesystem);
    assert_eq!(ExtensionError::UnexpectedEvent.kind(), ErrorKind::Protocol);
}
