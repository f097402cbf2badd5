//! Removing one extension: run its uninstall script, if it has one, then
//! delete its directory with all versions. Also: which directories on disk
//! belong to no extension of the desired state.

use crate::config::{contains_text, texts, InstallrConfig};
use crate::constants::{MANIFEST_FILE, UNINSTALL_SCRIPT};
use crate::effect::{Action, ActionView, Event, EventView, ManifestRead, ManifestReadView};
use crate::error::ExtensionError;
use crate::layout::{extension_dir, version_dir, Layout};
use crate::model::{ExtensionState, ExtensionStateView};
use crate::text::{join, joined};
use vstd::prelude::*;

verus! {

/// How a removal ended where it did not fail.
#[derive(Debug, Clone, Copy, PartialEq, Eq, Structural)]
pub enum Removal {
    /// The extension's directory was not there: nothing was done.
    AlreadyAbsent,
    /// The directory is gone; the uninstall script, if there was one, ended
    /// with exit code 0.
    Removed,
    /// The directory is gone, though the uninstall script could not be
    /// started or ended with a failure.
    RemovedAfterFailedScript,
}

/// The names that one removal works with.
#[derive(Debug, Clone, PartialEq, Eq)]
pub struct RemovalPlan {
    /// The directory of the package, with all versions.
    pub extension_dir: String,
    /// The directory of the version that the desired state names.
    pub version_dir: String,
    /// The manifest in the version directory.
    pub manifest: String,
    /// The uninstall script that is run where the manifest names none.
    pub fallback_script: String,
}

/// The mathematical content of a [`RemovalPlan`].
pub ghost struct RemovalPlanView {
    pub extension_dir: Seq<char>,
    pub version_dir: Seq<char>,
    pub manifest: Seq<char>,
    pub fallback_script: Seq<char>,
}

impl View for RemovalPlan {
    type V = RemovalPlanView;

    open spec fn view(&self) -> RemovalPlanView {
        RemovalPlanView {
            extension_dir: self.extension_dir@,
            version_dir: self.version_dir@,
            manifest: self.manifest@,
            fallback_script: self.fallback_script@,
        }
    }
}

/// The names for removing `extension` below `root`.
pub open spec fn removal_plan(root: Seq<char>, extension: ExtensionStateView) -> RemovalPlanView {
    let package_id = extension.package_id();
    let versioned = version_dir(root, package_id, extension.version);
    RemovalPlanView {
        extension_dir: extension_dir(root, package_id),
        version_dir: versioned,
        manifest: joined(versioned, MANIFEST_FILE@),
        fallback_script: joined(versioned, UNINSTALL_SCRIPT@),
    }
}

/// What a removal waits for.
#[derive(Debug, Clone, PartialEq, Eq)]
pub enum RemovalStage {
    /// Whether the extension's directory exists.
    DirectoryProbe,
    /// What the manifest holds.
    Manifest,
    /// Whether the script that the manifest names exists.
    NamedScriptProbe { script: String },
    /// Whether the fallback script exists.
    FallbackScriptProbe,
    /// The uninstall script to end.
    Script,
    /// The directory to be deleted.
    Deletion { script_failed: bool },
    /// Nothing: the removal has ended.
    Finished,
}

/// The mathematical content of a [`RemovalStage`].
pub ghost enum RemovalStageView {
    DirectoryProbe,
    Manifest,
    NamedScriptProbe { script: Seq<char> },
    FallbackScriptProbe,
    Script,
    Deletion { script_failed: bool },
    Finished,
}

impl View for RemovalStage {
    type V = RemovalStageView;

    open spec fn view(&self) -> RemovalStageView {
        match self {
            RemovalStage::DirectoryProbe => RemovalStageView::DirectoryProbe,
            RemovalStage::Manifest => RemovalStageView::Manifest,
            RemovalStage::NamedScriptProbe { script } => RemovalStageView::NamedScriptProbe {
                script: script@,
            },
            RemovalStage::FallbackScriptProbe => RemovalStageView::FallbackScriptProbe,
            RemovalStage::Script => RemovalStageView::Script,
            RemovalStage::Deletion { script_failed } => RemovalStageView::Deletion {
                script_failed: *script_failed,
            },
            RemovalStage::Finished => RemovalStageView::Finished,
        }
    }
}

/// What a removal does next.
#[derive(Debug, PartialEq, Eq)]
pub enum RemovalStep {
    /// Perform the effect and come back with its event.
    Perform(Action),
    /// The removal has ended, with this result.
    Finished(Result<Removal, ExtensionError>),
}

/// The mathematical content of a [`RemovalStep`].
pub ghost enum RemovalStepView {
    Perform(ActionView),
    Finished(Result<Removal, ExtensionError>),
}

impl View for RemovalStep {
    type V = RemovalStepView;

    open spec fn view(&self) -> RemovalStepView {
        match self {
            RemovalStep::Perform(action) => RemovalStepView::Perform(action@),
            RemovalStep::Finished(result) => RemovalStepView::Finished(*result),
        }
    }
}

/// The removal ends with a failure.
pub open spec fn removal_failed(e: ExtensionError) -> (RemovalStageView, RemovalStepView) {
    (RemovalStageView::Finished, RemovalStepView::Finished(Err(e)))
}

/// The removal goes on to look for the fallback script.
pub open spec fn probe_fallback(plan: RemovalPlanView) -> (RemovalStageView, RemovalStepView) {
    (
        RemovalStageView::FallbackScriptProbe,
        RemovalStepView::Perform(ActionView::Probe { path: plan.fallback_script }),
    )
}

/// The removal goes on to delete the extension's directory.
pub open spec fn delete_directory(plan: RemovalPlanView, script_failed: bool) -> (
    RemovalStageView,
    RemovalStepView,
) {
    (
        RemovalStageView::Deletion { script_failed },
        RemovalStepView::Perform(ActionView::RemoveTree { path: plan.extension_dir }),
    )
}

/// The first effect of a removal: look for the extension's directory.
pub open spec fn removal_start(plan: RemovalPlanView) -> (RemovalStageView, ActionView) {
    (RemovalStageView::DirectoryProbe, ActionView::Probe { path: plan.extension_dir })
}

/// The rules of a removal: the stage that follows `stage` on `event`, and
/// what to do next. The script that the manifest names is preferred where
/// it exists; without a manifest that names one, the fallback script is
/// looked for. A script that fails does not keep the directory from being
/// deleted.
pub open spec fn removal_step(plan: RemovalPlanView, stage: RemovalStageView, event: EventView) -> (
    RemovalStageView,
    RemovalStepView,
) {
    match stage {
        RemovalStageView::DirectoryProbe => match event {
            EventView::Probed(true) => (
                RemovalStageView::Manifest,
                RemovalStepView::Perform(ActionView::ReadManifest { path: plan.manifest }),
            ),
            EventView::Probed(false) => (
                RemovalStageView::Finished,
                RemovalStepView::Finished(Ok(Removal::AlreadyAbsent)),
            ),
            _ => removal_failed(ExtensionError::UnexpectedEvent),
        },
        RemovalStageView::Manifest => match event {
            EventView::Manifest(ManifestReadView::Parsed { uninstall_script: Some(name) }) => {
                let script = joined(plan.version_dir, name);
                (
                    RemovalStageView::NamedScriptProbe { script },
                    RemovalStepView::Perform(ActionView::Probe { path: script }),
                )
            },
            EventView::Manifest(ManifestReadView::Parsed { uninstall_script: None }) => probe_fallback(
                plan,
            ),
            EventView::Manifest(ManifestReadView::Absent) => probe_fallback(plan),
            EventView::Manifest(ManifestReadView::Invalid) => probe_fallback(plan),
            _ => removal_failed(ExtensionError::UnexpectedEvent),
        },
        RemovalStageView::NamedScriptProbe { script } => match event {
            EventView::Probed(true) => (
                RemovalStageView::Script,
                RemovalStepView::Perform(ActionView::RunScript { path: script }),
            ),
            EventView::Probed(false) => probe_fallback(plan),
            _ => removal_failed(ExtensionError::UnexpectedEvent),
        },
        RemovalStageView::FallbackScriptProbe => match event {
            EventView::Probed(true) => (
                RemovalStageView::Script,
                RemovalStepView::Perform(ActionView::RunScript { path: plan.fallback_script }),
            ),
            EventView::Probed(false) => delete_directory(plan, false),
            _ => removal_failed(ExtensionError::UnexpectedEvent),
        },
        RemovalStageView::Script => match event {
            EventView::ScriptFinished(Some(log)) => delete_directory(plan, log.exit_code != 0),
            EventView::ScriptFinished(None) => delete_directory(plan, true),
            _ => removal_failed(ExtensionError::UnexpectedEvent),
        },
        RemovalStageView::Deletion { script_failed } => match event {
            EventView::Removed(true) => (
                RemovalStageView::Finished,
                RemovalStepView::Finished(
                    Ok(
                        if script_failed {
                            Removal::RemovedAfterFailedScript
                        } else {
                            Removal::Removed
                        },
                    ),
                ),
            ),
            EventView::Removed(false) => removal_failed(ExtensionError::RemoveFailed),
            _ => removal_failed(ExtensionError::UnexpectedEvent),
        },
        RemovalStageView::Finished => removal_failed(ExtensionError::UnexpectedEvent),
    }
}

/// The removal of one extension, as far as it has come.
#[derive(Debug, Clone, PartialEq, Eq)]
pub struct Remover {
    pub plan: RemovalPlan,
    pub stage: RemovalStage,
}

/// The mathematical content of a [`Remover`].
pub ghost struct RemoverView {
    pub plan: RemovalPlanView,
    pub stage: RemovalStageView,
}

impl View for Remover {
    type V = RemoverView;

    open spec fn view(&self) -> RemoverView {
        RemoverView { plan: self.plan@, stage: self.stage@ }
    }
}

impl RemovalPlan {
    /// The names for removing `extension`.
    pub fn new(layout: &Layout, extension: &ExtensionState) -> (r: RemovalPlan)
        ensures
            r@ == removal_plan(layout@, extension@),
    {
        let package_id = extension.get_package_id();
        let versioned = layout.version_dir(package_id.as_str(), extension.version.as_str());
        RemovalPlan {
            extension_dir: layout.extension_dir(package_id.as_str()),
            manifest: join(versioned.as_str(), MANIFEST_FILE),
            fallback_script: join(versioned.as_str(), UNINSTALL_SCRIPT),
            version_dir: versioned,
        }
    }
}

impl Remover {
    /// A removal that follows `plan`, and its first effect.
    pub fn start(plan: RemovalPlan) -> (r: (Remover, Action))
        ensures
            r.0@.plan == plan@,
            (r.0@.stage, r.1@) == removal_start(plan@),
    {
        let first = Action::Probe { path: plan.extension_dir.clone() };
        (Remover { plan, stage: RemovalStage::DirectoryProbe }, first)
    }

    /// Whether the removal has ended.
    pub fn is_finished(&self) -> (r: bool)
        ensures
            r == (self@.stage is Finished),
    {
        match self.stage {
            RemovalStage::Finished => true,
            _ => false,
        }
    }

    fn fail(&mut self, e: ExtensionError) -> (r: RemovalStep)
        ensures
            final(self)@.plan == old(self)@.plan,
            (final(self)@.stage, r@) == removal_failed(e),
    {
        self.stage = RemovalStage::Finished;
        RemovalStep::Finished(Err(e))
    }

    fn probe_fallback(&mut self) -> (r: RemovalStep)
        ensures
            final(self)@.plan == old(self)@.plan,
            (final(self)@.stage, r@) == probe_fallback(old(self)@.plan),
    {
        self.stage = RemovalStage::FallbackScriptProbe;
        RemovalStep::Perform(Action::Probe { path: self.plan.fallback_script.clone() })
    }

    fn delete_directory(&mut self, script_failed: bool) -> (r: RemovalStep)
        ensures
            final(self)@.plan == old(self)@.plan,
            (final(self)@.stage, r@) == delete_directory(old(self)@.plan, script_failed),
    {
        self.stage = RemovalStage::Deletion { script_failed };
        RemovalStep::Perform(Action::RemoveTree { path: self.plan.extension_dir.clone() })
    }

    /// Takes the event that answers the pending effect and says what to
    /// do next.
    pub fn step(&mut self, event: Event) -> (r: RemovalStep)
        ensures
            final(self)@.plan == old(self)@.plan,
            (final(self)@.stage, r@) == removal_step(old(self)@.plan, old(self)@.stage, event@),
    {
        let mut stage = RemovalStage::Finished;
        std::mem::swap(&mut self.stage, &mut stage);
        match stage {
            RemovalStage::DirectoryProbe => match event {
                Event::Probed(true) => {
                    self.stage = RemovalStage::Manifest;
                    RemovalStep::Perform(Action::ReadManifest { path: self.plan.manifest.clone() })
                },
                Event::Probed(false) => {
                    self.stage = RemovalStage::Finished;
                    RemovalStep::Finished(Ok(Removal::AlreadyAbsent))
                },
                _ => self.fail(ExtensionError::UnexpectedEvent),
            },
            RemovalStage::Manifest => match event {
                Event::Manifest(ManifestRead::Parsed(spec)) => {
                    match spec.uninstall_script {
                        Some(name) => {
                            if name.as_str().unicode_len() > 0 {
                                let script = join(self.plan.version_dir.as_str(), name.as_str());
                                self.stage = RemovalStage::NamedScriptProbe { script: script.clone() };
                                RemovalStep::Perform(Action::Probe { path: script })
                            } else {
                                self.probe_fallback()
                            }
                        },
                        None => self.probe_fallback(),
                    }
                },
                Event::Manifest(ManifestRead::Absent) => self.probe_fallback(),
                Event::Manifest(ManifestRead::Invalid) => self.probe_fallback(),
                _ => self.fail(ExtensionError::UnexpectedEvent),
            },
            RemovalStage::NamedScriptProbe { script } => match event {
                Event::Probed(true) => {
                    self.stage = RemovalStage::Script;
                    RemovalStep::Perform(Action::RunScript { path: script })
                },
                Event::Probed(false) => self.probe_fallback(),
                _ => self.fail(ExtensionError::UnexpectedEvent),
            },
            RemovalStage::FallbackScriptProbe => match event {
                Event::Probed(true) => {
                    self.stage = RemovalStage::Script;
                    RemovalStep::Perform(
                        Action::RunScript { path: self.plan.fallback_script.clone() },
                    )
                },
                Event::Probed(false) => self.delete_directory(false),
                _ => self.fail(ExtensionError::UnexpectedEvent),
            },
            RemovalStage::Script => match event {
                Event::ScriptFinished(Some(log)) => self.delete_directory(log.exit_code != 0),
                Event::ScriptFinished(None) => self.delete_directory(true),
                _ => self.fail(ExtensionError::UnexpectedEvent),
            },
            RemovalStage::Deletion { script_failed } => match event {
                Event::Removed(true) => {
                    self.stage = RemovalStage::Finished;
                    RemovalStep::Finished(
                        Ok(
                            if script_failed {
                                Removal::RemovedAfterFailedScript
                            } else {
                                Removal::Removed
                            },
                        ),
                    )
                },
                Event::Removed(false) => self.fail(ExtensionError::RemoveFailed),
                _ => self.fail(ExtensionError::UnexpectedEvent),
            },
            RemovalStage::Finished => self.fail(ExtensionError::UnexpectedEvent),
        }
    }
}

/// Begins to remove `extension` below the root of `layout`: the removal
/// and its first effect.
pub fn uninstall_extension(layout: &Layout, extension: &ExtensionState) -> (r: (Remover, Action))
    ensures
        r.0@.plan == removal_plan(layout@, extension@),
        (r.0@.stage, r.1@) == removal_start(r.0@.plan),
{
    Remover::start(RemovalPlan::new(layout, extension))
}

/// The names among `listed` that are the package id of no extension in
/// `desired`, in the order listed.
pub open spec fn orphans(desired: Seq<Seq<char>>, listed: Seq<Seq<char>>) -> Seq<Seq<char>> {
    listed.filter(|name: Seq<char>| !desired.contains(name))
}

/// The names among `listed` that none of `desired` equals, in the order
/// listed.
pub fn orphaned_directories(desired: &Vec<String>, listed: Vec<String>) -> (r: Vec<String>)
    ensures
        texts(r@) == orphans(texts(desired@), texts(listed@)),
{
    let ghost all = listed@;
    let ghost keep = |name: Seq<char>| !texts(desired@).contains(name);
    let mut found: Vec<String> = Vec::new();
    assert(texts(found@) =~= texts(all.take(0)).filter(keep));
    for name in it: listed
        invariant
            it.seq() == all,
            keep == |name: Seq<char>| !texts(desired@).contains(name),
            texts(found@) == texts(all.take(it.index() as int)).filter(keep),
    {
        proof {
            let i = it.index() as int;
            assert(texts(all.take(i + 1)) =~= texts(all.take(i)).push(name@));
            texts(all.take(i)).lemma_filter_push(name@, keep);
        }
        let ghost prior = found@;
        if !contains_text(desired, name.as_str()) {
            found.push(name);
            assert(texts(found@) =~= texts(prior).push(name@));
        }
    }
    assert(all.take(all.len() as int) == all);
    found
}

/// The directories found below the extensions directory that belong to no
/// extension of the desired state, extensions that are being removed
/// included. They are deleted without a script being run.
pub fn clean_extension_dir(config: &InstallrConfig, listed: Vec<String>) -> (r: Vec<String>)
    ensures
        texts(r@) == orphans(config@.package_ids(), texts(listed@)),
{
    let desired = config.desired_package_ids();
    orphaned_directories(&desired, listed)
}

} // verus!
