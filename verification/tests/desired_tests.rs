use cloudapi_installr::config::InstallrConfig;
use cloudapi_installr::desired::{ConfigRead, LoadAction, LoadEvent, LoadStep, Loaded, Loader};
use cloudapi_installr::error::ErrorKind;
use cloudapi_installr::layout::Layout;
use cloudapi_installr::model::ExtensionState;

fn ext(uid: &str, id: &str, version: &str) -> ExtensionState {
    ExtensionState::stamped(uid, id, version, "2024-01-01T00:00:00+00:00".to_string())
}

fn config() -> InstallrConfig {
    let mut config = InstallrConfig::default_in(&Layout::new("/r"));
    config.add_extension(ext("a", "foo", "1"));
    config
}

fn begin(pull: bool) -> Loader {
    let (loader, first) = Loader::start(Layout::new("/r"), pull);
    assert_eq!(first, LoadAction::ReadConfig { path: "/r/installr.config.json".to_string() });
    loader
}

#[test]
fn unreadable_or_invalid_state_skips_the_pass() {
    for read in [ConfigRead::Unreadable, ConfigRead::Invalid] {
        let mut loader = begin(true);
        assert_eq!(loader.step(LoadEvent::Config(read)), LoadStep::Skip(ErrorKind::Config));
        assert!(loader.is_finished());
    }
}

#[test]
fn without_pull_the_pass_works_on_the_file() {
    let mut loader = begin(false);
    assert_eq!(
        loader.step(LoadEvent::Config(ConfigRead::Parsed(config()))),
        LoadStep::Reconcile(Loaded { config: config(), merged: false, persisted: false })
    );
    assert!(loader.is_finished());
}

#[test]
fn pulled_records_are_merged_and_persisted_before_the_pass() {
    let mut loader = begin(true);
    assert_eq!(
        loader.step(LoadEvent::Config(ConfigRead::Parsed(config()))),
        LoadStep::Perform(LoadAction::PullExtensions {
            endpoint: "http://169.254.169.254".to_string(),
            url: "http://169.254.169.254/cloud-api/v1/metadata/extensions".to_string()
        })
    );
    let mut merged = InstallrConfig::default_in(&Layout::new("/r"));
    merged.add_extension(ext("a", "foo", "2"));
    merged.add_extension(ext("b", "bar", "1"));
    assert_eq!(
        loader.step(LoadEvent::Pulled(Some(vec![ext("a", "foo", "2"), ext("b", "bar", "1")]))),
        LoadStep::Perform(LoadAction::PersistConfig {
            path: "/r/installr.config.json".to_string(),
            config: merged.duplicate()
        })
    );
    assert!(!loader.is_finished());
    assert_eq!(
        loader.step(LoadEvent::Persisted(true)),
        LoadStep::Reconcile(Loaded { config: merged, merged: true, persisted: true })
    );
}

#[test]
fn failed_pull_leaves_the_file_state() {
    let mut loader = begin(true);
    loader.step(LoadEvent::Config(ConfigRead::Parsed(config())));
    assert_eq!(
        loader.step(LoadEvent::Pulled(None)),
        LoadStep::Reconcile(Loaded { config: config(), merged: false, persisted: false })
    );
}

#[test]
fn failed_write_does_not_stop_the_pass() {
    let mut loader = begin(true);
    loader.step(LoadEvent::Config(ConfigRead::Parsed(config())));
    loader.step(LoadEvent::Pulled(Some(Vec::new())));
    assert_eq!(
        loader.step(LoadEvent::Persisted(false)),
        LoadStep::Reconcile(Loaded { config: config(), merged: true, persisted: false })
    );
}

#[test]
fn finished_loader_takes_no_more_events() {
    let mut loader = begin(false);
    loader.step(LoadEvent::Config(ConfigRead::Invalid));
    assert_eq!(loader.step(LoadEvent::Persisted(true)), LoadStep::Skip(ErrorKind::Protocol));
}
