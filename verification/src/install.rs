//! Installing or updating one extension: fetch the package unless it is
//! cached, unpack it, run its install script unless it has run before, and
//! record the fingerprint that was applied.

use crate::archive::{plan_extraction, planned, unpacked};
use crate::constants::{INSTALL_SCRIPT, RAN_MARKER, RUN_LOG};
use crate::digest::hash_extension_state;
use crate::effect::{Action, ActionView, Event, EventView};
use crate::error::ExtensionError;
use crate::layout::{
    artifact_address, artifact_file_name, artifact_name, artifact_url, version_dir, version_marker,
    Layout,
};
use crate::model::{ExtensionState, ExtensionStateView};
use crate::text::{join, joined};
use vstd::prelude::*;

verus! {

/// The names that one installation works with.
#[derive(Debug, Clone, PartialEq, Eq)]
pub struct InstallPlan {
    /// Where the archive is fetched from.
    pub url: String,
    /// Where the archive lies in the cache.
    pub cache_path: String,
    /// The version directory that the archive is unpacked into.
    pub target_dir: String,
    /// The install script in the version directory.
    pub script: String,
    /// The marker that tells that the install script has run.
    pub ran_marker: String,
    /// The record of the install script's run.
    pub run_log: String,
    /// The version marker of the package.
    pub version_marker: String,
    /// The fingerprint to record once the installation is through.
    pub fingerprint: String,
}

/// The mathematical content of an [`InstallPlan`].
pub ghost struct InstallPlanView {
    pub url: Seq<char>,
    pub cache_path: Seq<char>,
    pub target_dir: Seq<char>,
    pub script: Seq<char>,
    pub ran_marker: Seq<char>,
    pub run_log: Seq<char>,
    pub version_marker: Seq<char>,
    pub fingerprint: Seq<char>,
}

impl View for InstallPlan {
    type V = InstallPlanView;

    open spec fn view(&self) -> InstallPlanView {
        InstallPlanView {
            url: self.url@,
            cache_path: self.cache_path@,
            target_dir: self.target_dir@,
            script: self.script@,
            ran_marker: self.ran_marker@,
            run_log: self.run_log@,
            version_marker: self.version_marker@,
            fingerprint: self.fingerprint@,
        }
    }
}

/// The names for installing `extension` below `root`, its package fetched
/// from `endpoint` and cached in `cache_dir`.
pub open spec fn install_plan(
    root: Seq<char>,
    extension: ExtensionStateView,
    fingerprint: Seq<char>,
    endpoint: Seq<char>,
    cache_dir: Seq<char>,
) -> InstallPlanView {
    let package_id = extension.package_id();
    let artifact = artifact_name(package_id, extension.version);
    let target = version_dir(root, package_id, extension.version);
    InstallPlanView {
        url: artifact_url(endpoint, artifact),
        cache_path: joined(cache_dir, artifact),
        target_dir: target,
        script: joined(target, INSTALL_SCRIPT@),
        ran_marker: joined(target, RAN_MARKER@),
        run_log: joined(target, RUN_LOG@),
        version_marker: version_marker(root, package_id),
        fingerprint,
    }
}

/// What an installation waits for.
#[derive(Debug, Clone, PartialEq, Eq)]
pub enum InstallStage {
    /// Whether the archive is in the cache.
    CacheProbe,
    /// The endpoint's answer.
    Download,
    /// The archive to be written into the cache.
    Store,
    /// The archive's bytes.
    Archive,
    /// The entries to be written.
    Unpack,
    /// Whether there is an install script.
    ScriptProbe,
    /// Whether the install script has run before.
    RanProbe,
    /// The install script to end.
    Script,
    /// The record of the run to be written.
    RunLog { executed_at: String, exit_code: i32 },
    /// The marker of the run to be written.
    RanMarker { exit_code: i32 },
    /// The version marker to be written.
    VersionMarker,
    /// Nothing: the installation has ended.
    Finished,
}

/// The mathematical content of an [`InstallStage`].
pub ghost enum InstallStageView {
    CacheProbe,
    Download,
    Store,
    Archive,
    Unpack,
    ScriptProbe,
    RanProbe,
    Script,
    RunLog { executed_at: Seq<char>, exit_code: i32 },
    RanMarker { exit_code: i32 },
    VersionMarker,
    Finished,
}

impl View for InstallStage {
    type V = InstallStageView;

    open spec fn view(&self) -> InstallStageView {
        match self {
            InstallStage::CacheProbe => InstallStageView::CacheProbe,
            InstallStage::Download => InstallStageView::Download,
            InstallStage::Store => InstallStageView::Store,
            InstallStage::Archive => InstallStageView::Archive,
            InstallStage::Unpack => InstallStageView::Unpack,
            InstallStage::ScriptProbe => InstallStageView::ScriptProbe,
            InstallStage::RanProbe => InstallStageView::RanProbe,
            InstallStage::Script => InstallStageView::Script,
            InstallStage::RunLog { executed_at, exit_code } => InstallStageView::RunLog {
                executed_at: executed_at@,
                exit_code: *exit_code,
            },
            InstallStage::RanMarker { exit_code } => InstallStageView::RanMarker {
                exit_code: *exit_code,
            },
            InstallStage::VersionMarker => InstallStageView::VersionMarker,
            InstallStage::Finished => InstallStageView::Finished,
        }
    }
}

/// What an installation does next.
#[derive(Debug, PartialEq, Eq)]
pub enum InstallStep {
    /// Perform the effect and come back with its event.
    Perform(Action),
    /// The installation has ended, with this result.
    Finished(Result<(), ExtensionError>),
}

/// The mathematical content of an [`InstallStep`].
pub ghost enum InstallStepView {
    Perform(ActionView),
    Finished(Result<(), ExtensionError>),
}

impl View for InstallStep {
    type V = InstallStepView;

    open spec fn view(&self) -> InstallStepView {
        match self {
            InstallStep::Perform(action) => InstallStepView::Perform(action@),
            InstallStep::Finished(result) => InstallStepView::Finished(*result),
        }
    }
}

/// The installation ends with a failure.
pub open spec fn install_failed(e: ExtensionError) -> (InstallStageView, InstallStepView) {
    (InstallStageView::Finished, InstallStepView::Finished(Err(e)))
}

/// The installation goes on to record the fingerprint.
pub open spec fn write_version_marker(plan: InstallPlanView) -> (InstallStageView, InstallStepView) {
    (
        InstallStageView::VersionMarker,
        InstallStepView::Perform(
            ActionView::WriteText { path: plan.version_marker, contents: plan.fingerprint },
        ),
    )
}

/// The installation goes on to read the cached archive.
pub open spec fn read_archive(plan: InstallPlanView) -> (InstallStageView, InstallStepView) {
    (
        InstallStageView::Archive,
        InstallStepView::Perform(ActionView::ReadArchive { path: plan.cache_path }),
    )
}

/// The first effect of an installation: look for the archive in the cache.
pub open spec fn install_start(plan: InstallPlanView) -> (InstallStageView, ActionView) {
    (InstallStageView::CacheProbe, ActionView::Probe { path: plan.cache_path })
}

/// The rules of an installation: the stage that follows `stage` on
/// `event`, and what to do next. Each step must succeed before the next
/// begins; an event of another kind than the one awaited ends the
/// installation.
pub open spec fn install_step(plan: InstallPlanView, stage: InstallStageView, event: EventView) -> (
    InstallStageView,
    InstallStepView,
) {
    match stage {
        InstallStageView::CacheProbe => match event {
            EventView::Probed(true) => read_archive(plan),
            EventView::Probed(false) => (
                InstallStageView::Download,
                InstallStepView::Perform(ActionView::Download { url: plan.url }),
            ),
            _ => install_failed(ExtensionError::UnexpectedEvent),
        },
        InstallStageView::Download => match event {
            EventView::Downloaded(Some(response)) => if response.is_success() {
                (
                    InstallStageView::Store,
                    InstallStepView::Perform(
                        ActionView::StoreArtifact { path: plan.cache_path, contents: response.body },
                    ),
                )
            } else {
                install_failed(ExtensionError::FetchRejected(response.status))
            },
            EventView::Downloaded(None) => install_failed(ExtensionError::FetchFailed),
            _ => install_failed(ExtensionError::UnexpectedEvent),
        },
        InstallStageView::Store => match event {
            EventView::Written(true) => read_archive(plan),
            EventView::Written(false) => install_failed(ExtensionError::CacheWriteFailed),
            _ => install_failed(ExtensionError::UnexpectedEvent),
        },
        InstallStageView::Archive => match event {
            EventView::Archive(Some(bytes)) => match planned(plan.target_dir, unpacked(bytes)) {
                Ok(ops) => (
                    InstallStageView::Unpack,
                    InstallStepView::Perform(ActionView::Unpack { target: plan.target_dir, ops }),
                ),
                Err(e) => install_failed(e),
            },
            EventView::Archive(None) => install_failed(ExtensionError::ArchiveUnreadable),
            _ => install_failed(ExtensionError::UnexpectedEvent),
        },
        InstallStageView::Unpack => match event {
            EventView::Written(true) => (
                InstallStageView::ScriptProbe,
                InstallStepView::Perform(ActionView::Probe { path: plan.script }),
            ),
            EventView::Written(false) => install_failed(ExtensionError::UnpackFailed),
            _ => install_failed(ExtensionError::UnexpectedEvent),
        },
        InstallStageView::ScriptProbe => match event {
            EventView::Probed(true) => (
                InstallStageView::RanProbe,
                InstallStepView::Perform(ActionView::Probe { path: plan.ran_marker }),
            ),
            EventView::Probed(false) => write_version_marker(plan),
            _ => install_failed(ExtensionError::UnexpectedEvent),
        },
        InstallStageView::RanProbe => match event {
            EventView::Probed(false) => (
                InstallStageView::Script,
                InstallStepView::Perform(ActionView::RunScript { path: plan.script }),
            ),
            EventView::Probed(true) => write_version_marker(plan),
            _ => install_failed(ExtensionError::UnexpectedEvent),
        },
        InstallStageView::Script => match event {
            EventView::ScriptFinished(Some(log)) => (
                InstallStageView::RunLog {
                    executed_at: log.executed_at,
                    exit_code: log.exit_code as i32,
                },
                InstallStepView::Perform(ActionView::WriteRunLog { path: plan.run_log, log }),
            ),
            EventView::ScriptFinished(None) => install_failed(ExtensionError::ScriptNotStarted),
            _ => install_failed(ExtensionError::UnexpectedEvent),
        },
        InstallStageView::RunLog { executed_at, exit_code } => match event {
            EventView::Written(true) => (
                InstallStageView::RanMarker { exit_code },
                InstallStepView::Perform(
                    ActionView::WriteText { path: plan.ran_marker, contents: executed_at },
                ),
            ),
            EventView::Written(false) => install_failed(ExtensionError::RunLogWriteFailed),
            _ => install_failed(ExtensionError::UnexpectedEvent),
        },
        InstallStageView::RanMarker { exit_code } => match event {
            EventView::Written(true) => if exit_code != 0 {
                install_failed(ExtensionError::ScriptFailed(exit_code))
            } else {
                write_version_marker(plan)
            },
            EventView::Written(false) => install_failed(ExtensionError::RanMarkerWriteFailed),
            _ => install_failed(ExtensionError::UnexpectedEvent),
        },
        InstallStageView::VersionMarker => match event {
            EventView::Written(true) => (
                InstallStageView::Finished,
                InstallStepView::Finished(Ok(())),
            ),
            EventView::Written(false) => install_failed(ExtensionError::VersionMarkerWriteFailed),
            _ => install_failed(ExtensionError::UnexpectedEvent),
        },
        InstallStageView::Finished => install_failed(ExtensionError::UnexpectedEvent),
    }
}

/// The installation of one extension, as far as it has come.
#[derive(Debug, Clone, PartialEq, Eq)]
pub struct Installer {
    pub plan: InstallPlan,
    pub stage: InstallStage,
}

/// The mathematical content of an [`Installer`].
pub ghost struct InstallerView {
    pub plan: InstallPlanView,
    pub stage: InstallStageView,
}

impl View for Installer {
    type V = InstallerView;

    open spec fn view(&self) -> InstallerView {
        InstallerView { plan: self.plan@, stage: self.stage@ }
    }
}

impl InstallPlan {
    /// The names for installing `extension`, whose fingerprint is
    /// `fingerprint`.
    pub fn new(
        layout: &Layout,
        extension: &ExtensionState,
        fingerprint: String,
        endpoint: &str,
        cache_dir: &str,
    ) -> (r: InstallPlan)
        ensures
            r@ == install_plan(layout@, extension@, fingerprint@, endpoint@, cache_dir@),
    {
        let package_id = extension.get_package_id();
        let version = extension.version.as_str();
        let artifact = artifact_file_name(package_id.as_str(), version);
        let target = layout.version_dir(package_id.as_str(), version);
        InstallPlan {
            url: artifact_address(endpoint, artifact.as_str()),
            cache_path: join(cache_dir, artifact.as_str()),
            script: join(target.as_str(), INSTALL_SCRIPT),
            ran_marker: join(target.as_str(), RAN_MARKER),
            run_log: join(target.as_str(), RUN_LOG),
            version_marker: layout.version_marker(package_id.as_str()),
            target_dir: target,
            fingerprint,
        }
    }
}

impl Installer {
    /// An installation that follows `plan`, and its first effect.
    pub fn start(plan: InstallPlan) -> (r: (Installer, Action))
        ensures
            r.0@.plan == plan@,
            (r.0@.stage, r.1@) == install_start(plan@),
    {
        let first = Action::Probe { path: plan.cache_path.clone() };
        (Installer { plan, stage: InstallStage::CacheProbe }, first)
    }

    /// Whether the installation has ended.
    pub fn is_finished(&self) -> (r: bool)
        ensures
            r == (self@.stage is Finished),
    {
        match self.stage {
            InstallStage::Finished => true,
            _ => false,
        }
    }

    fn fail(&mut self, e: ExtensionError) -> (r: InstallStep)
        ensures
            final(self)@.plan == old(self)@.plan,
            (final(self)@.stage, r@) == install_failed(e),
    {
        self.stage = InstallStage::Finished;
        InstallStep::Finished(Err(e))
    }

    fn write_version_marker(&mut self) -> (r: InstallStep)
        ensures
            final(self)@.plan == old(self)@.plan,
            (final(self)@.stage, r@) == write_version_marker(old(self)@.plan),
    {
        self.stage = InstallStage::VersionMarker;
        InstallStep::Perform(
            Action::WriteText {
                path: self.plan.version_marker.clone(),
                contents: self.plan.fingerprint.clone(),
            },
        )
    }

    fn read_archive(&mut self) -> (r: InstallStep)
        ensures
            final(self)@.plan == old(self)@.plan,
            (final(self)@.stage, r@) == read_archive(old(self)@.plan),
    {
        self.stage = InstallStage::Archive;
        InstallStep::Perform(Action::ReadArchive { path: self.plan.cache_path.clone() })
    }

    /// Takes the event that answers the pending effect and says what to
    /// do next.
    pub fn step(&mut self, event: Event) -> (r: InstallStep)
        ensures
            final(self)@.plan == old(self)@.plan,
            (final(self)@.stage, r@) == install_step(old(self)@.plan, old(self)@.stage, event@),
    {
        let mut stage = InstallStage::Finished;
        std::mem::swap(&mut self.stage, &mut stage);
        match stage {
            InstallStage::CacheProbe => match event {
                Event::Probed(true) => self.read_archive(),
                Event::Probed(false) => {
                    self.stage = InstallStage::Download;
                    InstallStep::Perform(Action::Download { url: self.plan.url.clone() })
                },
                _ => self.fail(ExtensionError::UnexpectedEvent),
            },
            InstallStage::Download => match event {
                Event::Downloaded(Some(response)) => {
                    if response.is_success() {
                        self.stage = InstallStage::Store;
                        InstallStep::Perform(
                            Action::StoreArtifact {
                                path: self.plan.cache_path.clone(),
                                contents: response.body,
                            },
                        )
                    } else {
                        self.fail(ExtensionError::FetchRejected(response.status))
                    }
                },
                Event::Downloaded(None) => self.fail(ExtensionError::FetchFailed),
                _ => self.fail(ExtensionError::UnexpectedEvent),
            },
            InstallStage::Store => match event {
                Event::Written(true) => self.read_archive(),
                Event::Written(false) => self.fail(ExtensionError::CacheWriteFailed),
                _ => self.fail(ExtensionError::UnexpectedEvent),
            },
            InstallStage::Archive => match event {
                Event::Archive(Some(bytes)) => {
                    match plan_extraction(self.plan.target_dir.as_str(), bytes) {
                        Ok(ops) => {
                            self.stage = InstallStage::Unpack;
                            InstallStep::Perform(
                                Action::Unpack { target: self.plan.target_dir.clone(), ops },
                            )
                        },
                        Err(e) => self.fail(e),
                    }
                },
                Event::Archive(None) => self.fail(ExtensionError::ArchiveUnreadable),
                _ => self.fail(ExtensionError::UnexpectedEvent),
            },
            InstallStage::Unpack => match event {
                Event::Written(true) => {
                    self.stage = InstallStage::ScriptProbe;
                    InstallStep::Perform(Action::Probe { path: self.plan.script.clone() })
                },
                Event::Written(false) => self.fail(ExtensionError::UnpackFailed),
                _ => self.fail(ExtensionError::UnexpectedEvent),
            },
            InstallStage::ScriptProbe => match event {
                Event::Probed(true) => {
                    self.stage = InstallStage::RanProbe;
                    InstallStep::Perform(Action::Probe { path: self.plan.ran_marker.clone() })
                },
                Event::Probed(false) => self.write_version_marker(),
                _ => self.fail(ExtensionError::UnexpectedEvent),
            },
            InstallStage::RanProbe => match event {
                Event::Probed(false) => {
                    self.stage = InstallStage::Script;
                    InstallStep::Perform(Action::RunScript { path: self.plan.script.clone() })
                },
                Event::Probed(true) => self.write_version_marker(),
                _ => self.fail(ExtensionError::UnexpectedEvent),
            },
            InstallStage::Script => match event {
                Event::ScriptFinished(Some(log)) => {
                    self.stage = InstallStage::RunLog {
                        executed_at: log.executed_at.clone(),
                        exit_code: log.exit_code,
                    };
                    InstallStep::Perform(
                        Action::WriteRunLog { path: self.plan.run_log.clone(), log },
                    )
                },
                Event::ScriptFinished(None) => self.fail(ExtensionError::ScriptNotStarted),
                _ => self.fail(ExtensionError::UnexpectedEvent),
            },
            InstallStage::RunLog { executed_at, exit_code } => match event {
                Event::Written(true) => {
                    self.stage = InstallStage::RanMarker { exit_code };
                    InstallStep::Perform(
                        Action::WriteText {
                            path: self.plan.ran_marker.clone(),
                            contents: executed_at,
                        },
                    )
                },
                Event::Written(false) => self.fail(ExtensionError::RunLogWriteFailed),
                _ => self.fail(ExtensionError::UnexpectedEvent),
            },
            InstallStage::RanMarker { exit_code } => match event {
                Event::Written(true) => {
                    if exit_code != 0 {
                        self.fail(ExtensionError::ScriptFailed(exit_code))
                    } else {
                        self.write_version_marker()
                    }
                },
                Event::Written(false) => self.fail(ExtensionError::RanMarkerWriteFailed),
                _ => self.fail(ExtensionError::UnexpectedEvent),
            },
            InstallStage::VersionMarker => match event {
                Event::Written(true) => {
                    self.stage = InstallStage::Finished;
                    InstallStep::Finished(Ok(()))
                },
                Event::Written(false) => self.fail(ExtensionError::VersionMarkerWriteFailed),
                _ => self.fail(ExtensionError::UnexpectedEvent),
            },
            InstallStage::Finished => self.fail(ExtensionError::UnexpectedEvent),
        }
    }
}

/// Begins to install or update `extension` below the root of `layout`:
/// the installation, planned with the fingerprint of the extension, and
/// its first effect.
pub fn install_or_update_extension(
    layout: &Layout,
    extension: &ExtensionState,
    endpoint: &str,
    cache_dir: &str,
) -> (r: Result<(Installer, Action), ExtensionError>)
    ensures
        r is Ok,
        r matches Ok((installer, first)) ==> {
            &&& installer@.plan == install_plan(
                layout@,
                extension@,
                extension@.fingerprint(),
                endpoint@,
                cache_dir@,
            )
            &&& (installer@.stage, first@) == install_start(installer@.plan)
        },
{
    match hash_extension_state(extension) {
        Ok(fingerprint) => Ok(
            Installer::start(InstallPlan::new(layout, extension, fingerprint, endpoint, cache_dir)),
        ),
        Err(e) => Err(e),
    }
}

} // verus!
