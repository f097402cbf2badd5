//! Loading the desired state at the start of a pass: read the file, take in
//! what the control plane reports, and write the merged state back before
//! anything is done on the strength of it.

use crate::config::{merged, views, InstallrConfig, InstallrConfigView};
use crate::error::ErrorKind;
use crate::layout::{config_file, extensions_url, get_extensions_url, Layout};
use crate::model::{ExtensionState, ExtensionStateView};
use vstd::prelude::*;

verus! {

/// Something to do in order to load the desired state.
#[derive(Debug, Clone, PartialEq, Eq)]
pub enum LoadAction {
    /// Read and parse the desired-state file. Answer: [`LoadEvent::Config`].
    ReadConfig { path: String },
    /// Request the extension records from the control plane at `endpoint`:
    /// a GET of `url` with the header `Metadata: true`. Answer:
    /// [`LoadEvent::Pulled`].
    PullExtensions { endpoint: String, url: String },
    /// Write the desired state back to its file. Answer:
    /// [`LoadEvent::Persisted`].
    PersistConfig { path: String, config: InstallrConfig },
}

/// The mathematical content of a [`LoadAction`].
pub ghost enum LoadActionView {
    ReadConfig { path: Seq<char> },
    PullExtensions { endpoint: Seq<char>, url: Seq<char> },
    PersistConfig { path: Seq<char>, config: InstallrConfigView },
}

impl View for LoadAction {
    type V = LoadActionView;

    open spec fn view(&self) -> LoadActionView {
        match self {
            LoadAction::ReadConfig { path } => LoadActionView::ReadConfig { path: path@ },
            LoadAction::PullExtensions { endpoint, url } => LoadActionView::PullExtensions {
                endpoint: endpoint@,
                url: url@,
            },
            LoadAction::PersistConfig { path, config } => LoadActionView::PersistConfig {
                path: path@,
                config: config@,
            },
        }
    }
}

/// What reading the desired-state file gave.
#[derive(Debug, Clone, PartialEq, Eq)]
pub enum ConfigRead {
    /// The file could not be read.
    Unreadable,
    /// The file could not be parsed.
    Invalid,
    /// The desired state.
    Parsed(InstallrConfig),
}

/// How a step of loading went.
#[derive(Debug, Clone, PartialEq, Eq)]
pub enum LoadEvent {
    /// What the desired-state file holds.
    Config(ConfigRead),
    /// The records that the control plane reports, or `None` where it
    /// could not be asked or its answer not be understood.
    Pulled(Option<Vec<ExtensionState>>),
    /// Whether the desired state was written.
    Persisted(bool),
}

/// The mathematical content of a [`LoadEvent`].
pub ghost enum LoadEventView {
    Unreadable,
    Invalid,
    Parsed(InstallrConfigView),
    Pulled(Option<Seq<ExtensionStateView>>),
    Persisted(bool),
}

impl View for LoadEvent {
    type V = LoadEventView;

    open spec fn view(&self) -> LoadEventView {
        match self {
            LoadEvent::Config(ConfigRead::Unreadable) => LoadEventView::Unreadable,
            LoadEvent::Config(ConfigRead::Invalid) => LoadEventView::Invalid,
            LoadEvent::Config(ConfigRead::Parsed(config)) => LoadEventView::Parsed(config@),
            LoadEvent::Pulled(Some(states)) => LoadEventView::Pulled(Some(views(states@))),
            LoadEvent::Pulled(None) => LoadEventView::Pulled(None),
            LoadEvent::Persisted(done) => LoadEventView::Persisted(*done),
        }
    }
}

/// The desired state that a pass works on, and how it came about.
#[derive(Debug, Clone, PartialEq, Eq)]
pub struct Loaded {
    pub config: InstallrConfig,
    /// Whether records of the control plane were taken in.
    pub merged: bool,
    /// Whether the merged state was written back. `false` where nothing
    /// was merged.
    pub persisted: bool,
}

/// The mathematical content of a [`Loaded`].
pub ghost struct LoadedView {
    pub config: InstallrConfigView,
    pub merged: bool,
    pub persisted: bool,
}

impl View for Loaded {
    type V = LoadedView;

    open spec fn view(&self) -> LoadedView {
        LoadedView { config: self.config@, merged: self.merged, persisted: self.persisted }
    }
}

/// What loading does next.
#[derive(Debug, PartialEq, Eq)]
pub enum LoadStep {
    /// Perform the effect and come back with its event.
    Perform(LoadAction),
    /// There is no desired state to work on: the pass is skipped, and the
    /// machine is left as it is.
    Skip(ErrorKind),
    /// The pass works on this desired state.
    Reconcile(Loaded),
}

/// The mathematical content of a [`LoadStep`].
pub ghost enum LoadStepView {
    Perform(LoadActionView),
    Skip(ErrorKind),
    Reconcile(LoadedView),
}

impl View for LoadStep {
    type V = LoadStepView;

    open spec fn view(&self) -> LoadStepView {
        match self {
            LoadStep::Perform(action) => LoadStepView::Perform(action@),
            LoadStep::Skip(kind) => LoadStepView::Skip(*kind),
            LoadStep::Reconcile(loaded) => LoadStepView::Reconcile(loaded@),
        }
    }
}

/// What loading waits for.
pub ghost enum LoadStageView {
    /// The desired-state file.
    Config,
    /// The records of the control plane.
    Pull { config: InstallrConfigView },
    /// The merged state to be written back.
    Persist { config: InstallrConfigView },
    /// Nothing: loading has ended.
    Finished,
}

/// The mathematical content of a [`Loader`].
pub ghost struct LoaderView {
    pub root: Seq<char>,
    /// Whether the control plane is asked for its records.
    pub pull: bool,
    pub stage: LoadStageView,
}

/// Loading has ended.
pub open spec fn load_ended(s: LoaderView, step: LoadStepView) -> (LoaderView, LoadStepView) {
    (LoaderView { stage: LoadStageView::Finished, ..s }, step)
}

/// The first effect of loading: read the desired-state file.
pub open spec fn load_start(root: Seq<char>, pull: bool) -> (LoaderView, LoadActionView) {
    (
        LoaderView { root, pull, stage: LoadStageView::Config },
        LoadActionView::ReadConfig { path: config_file(root) },
    )
}

/// The rules of loading. A file that cannot be read or parsed skips the
/// pass. Records of the control plane are merged in by their uid and the
/// merged state is written back before the pass works on it; where the
/// control plane gives none, the pass works on the file's state, and where
/// the merged state cannot be written, the pass works on it all the same.
pub open spec fn load_step(s: LoaderView, event: LoadEventView) -> (LoaderView, LoadStepView) {
    match s.stage {
        LoadStageView::Config => match event {
            LoadEventView::Parsed(config) => if s.pull {
                (
                    LoaderView { stage: LoadStageView::Pull { config }, ..s },
                    LoadStepView::Perform(
                        LoadActionView::PullExtensions {
                            endpoint: config.cloudapi_endpoint,
                            url: extensions_url(config.cloudapi_endpoint),
                        },
                    ),
                )
            } else {
                load_ended(
                    s,
                    LoadStepView::Reconcile(
                        LoadedView { config, merged: false, persisted: false },
                    ),
                )
            },
            _ => load_ended(s, LoadStepView::Skip(ErrorKind::Config)),
        },
        LoadStageView::Pull { config } => match event {
            LoadEventView::Pulled(Some(states)) => {
                let merged_config = InstallrConfigView {
                    extensions: merged(config.extensions, states),
                    ..config
                };
                (
                    LoaderView { stage: LoadStageView::Persist { config: merged_config }, ..s },
                    LoadStepView::Perform(
                        LoadActionView::PersistConfig {
                            path: config_file(s.root),
                            config: merged_config,
                        },
                    ),
                )
            },
            _ => load_ended(
                s,
                LoadStepView::Reconcile(LoadedView { config, merged: false, persisted: false }),
            ),
        },
        LoadStageView::Persist { config } => match event {
            LoadEventView::Persisted(done) => load_ended(
                s,
                LoadStepView::Reconcile(LoadedView { config, merged: true, persisted: done }),
            ),
            _ => load_ended(
                s,
                LoadStepView::Reconcile(LoadedView { config, merged: true, persisted: false }),
            ),
        },
        LoadStageView::Finished => load_ended(s, LoadStepView::Skip(ErrorKind::Protocol)),
    }
}

/// What loading waits for.
enum LoadStage {
    Config,
    Pull { config: InstallrConfig },
    Persist { config: InstallrConfig },
    Finished,
}

impl View for LoadStage {
    type V = LoadStageView;

    closed spec fn view(&self) -> LoadStageView {
        match self {
            LoadStage::Config => LoadStageView::Config,
            LoadStage::Pull { config } => LoadStageView::Pull { config: config@ },
            LoadStage::Persist { config } => LoadStageView::Persist { config: config@ },
            LoadStage::Finished => LoadStageView::Finished,
        }
    }
}

/// The loading of the desired state, as far as it has come.
pub struct Loader {
    layout: Layout,
    pull: bool,
    stage: LoadStage,
}

impl View for Loader {
    type V = LoaderView;

    closed spec fn view(&self) -> LoaderView {
        LoaderView { root: self.layout@, pull: self.pull, stage: self.stage@ }
    }
}

impl Loader {
    /// Loading below the root of `layout`, and its first effect. With
    /// `pull` the control plane is asked for its records.
    pub fn start(layout: Layout, pull: bool) -> (r: (Loader, LoadAction))
        ensures
            (r.0@, r.1@) == load_start(layout@, pull),
    {
        let first = LoadAction::ReadConfig { path: layout.config_file() };
        (Loader { layout, pull, stage: LoadStage::Config }, first)
    }

    /// Whether loading has ended.
    pub fn is_finished(&self) -> (r: bool)
        ensures
            r == (self@.stage is Finished),
    {
        match self.stage {
            LoadStage::Finished => true,
            _ => false,
        }
    }

    /// Takes the event that answers the pending effect and says what to
    /// do next.
    pub fn step(&mut self, event: LoadEvent) -> (r: LoadStep)
        ensures
            (final(self)@, r@) == load_step(old(self)@, event@),
    {
        let mut stage = LoadStage::Finished;
        std::mem::swap(&mut self.stage, &mut stage);
        match stage {
            LoadStage::Config => match event {
                LoadEvent::Config(ConfigRead::Parsed(config)) => {
                    if self.pull {
                        let endpoint = config.cloudapi_endpoint.clone();
                        let url = get_extensions_url(endpoint.as_str());
                        self.stage = LoadStage::Pull { config };
                        LoadStep::Perform(LoadAction::PullExtensions { endpoint, url })
                    } else {
                        LoadStep::Reconcile(Loaded { config, merged: false, persisted: false })
                    }
                },
                _ => LoadStep::Skip(ErrorKind::Config),
            },
            LoadStage::Pull { config } => match event {
                LoadEvent::Pulled(Some(states)) => {
                    let mut config = config;
                    config.merge_extension_states(states);
                    let copy = config.duplicate();
                    self.stage = LoadStage::Persist { config };
                    LoadStep::Perform(
                        LoadAction::PersistConfig { path: self.layout.config_file(), config: copy },
                    )
                },
                _ => LoadStep::Reconcile(Loaded { config, merged: false, persisted: false }),
            },
            LoadStage::Persist { config } => match event {
                LoadEvent::Persisted(done) => LoadStep::Reconcile(
                    Loaded { config, merged: true, persisted: done },
                ),
                _ => LoadStep::Reconcile(Loaded { config, merged: true, persisted: false }),
            },
            LoadStage::Finished => LoadStep::Skip(ErrorKind::Protocol),
        }
    }
}

/// A desired state that cannot be read or parsed skips the pass: nothing
/// is asked of the control plane and nothing is written.
pub proof fn unreadable_state_skips_the_pass(root: Seq<char>, pull: bool, event: LoadEventView)
    requires
        !(event is Parsed),
    ensures
        load_step(load_start(root, pull).0, event).1 == LoadStepView::Skip(ErrorKind::Config),
{
}

/// The merged state is handed to the pass only after it was offered for
/// writing: a pass works on merged records only once they were persisted
/// or the attempt has failed.
pub proof fn merged_state_is_persisted_before_the_pass(s: LoaderView, event: LoadEventView)
    requires
        load_step(s, event).1 matches LoadStepView::Reconcile(loaded) && loaded.merged,
    ensures
        s.stage is Persist,
        load_step(s, event).1 matches LoadStepView::Reconcile(loaded) && loaded.config
            == s.stage->Persist_config,
{
}

} // verus!
