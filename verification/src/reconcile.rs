//! One reconciliation pass over the desired state: every extension that is
//! to be present is installed or updated where its version marker falls
//! short, every extension that is to go is removed, and the directories
//! that belong to no extension are swept away. What happens to one
//! extension never keeps the pass from going on to the next.

use crate::config::{texts, InstallrConfig, InstallrConfigView};
use crate::digest::{hash_extension_state, is_marker_stale, marker_is_stale};
use crate::effect::{Action, ActionView, Event, EventView, MarkerRead, MarkerReadView};
use crate::error::ExtensionError;
use crate::install::{
    install_plan, install_start, install_step, InstallPlan, InstallStep, InstallStepView, Installer,
    InstallerView,
};
use crate::layout::{extension_dir, extensions_root, version_marker, Layout};
use crate::model::{optional_text, ExtensionStateView};
use crate::uninstall::{
    clean_extension_dir, orphans, removal_plan, removal_start, removal_step, uninstall_extension,
    Removal, RemovalStep, RemovalStepView, Remover, RemoverView,
};
use vstd::prelude::*;

verus! {

/// What a pass has to do for one extension.
#[derive(Debug, Clone, PartialEq, Eq)]
pub enum Task {
    /// Install or update the extension at `index` of the desired state,
    /// unless its version marker holds `fingerprint`. `None` stands for a
    /// fingerprint that the pass was not given.
    Install { index: usize, fingerprint: Option<String> },
    /// Remove the extension at `index` of the desired state.
    Remove { index: usize },
}

/// The mathematical content of a [`Task`].
pub ghost enum TaskView {
    Install { index: int, fingerprint: Option<Seq<char>> },
    Remove { index: int },
}

impl View for Task {
    type V = TaskView;

    open spec fn view(&self) -> TaskView {
        match self {
            Task::Install { index, fingerprint } => TaskView::Install {
                index: *index as int,
                fingerprint: optional_text(*fingerprint),
            },
            Task::Remove { index } => TaskView::Remove { index: *index as int },
        }
    }
}

impl TaskView {
    /// The place in the desired state of the extension that the task is
    /// about.
    pub open spec fn index(self) -> int {
        match self {
            TaskView::Install { index, .. } => index,
            TaskView::Remove { index } => index,
        }
    }
}

/// The mathematical content of each task of a list.
pub open spec fn task_views(tasks: Seq<Task>) -> Seq<TaskView> {
    tasks.map_values(|t: Task| t@)
}

/// The mathematical content of each fingerprint of a list.
pub open spec fn fingerprint_views(hashed: Seq<Option<String>>) -> Seq<Option<Seq<char>>> {
    hashed.map_values(|h: Option<String>| optional_text(h))
}

/// The fingerprint given for the extension at `index`, if one is given.
pub open spec fn fingerprint_at(hashed: Seq<Option<Seq<char>>>, index: int) -> Option<Seq<char>> {
    if 0 <= index < hashed.len() {
        hashed[index]
    } else {
        None
    }
}

/// One install task for each extension that is active, in the order of the
/// desired state, with the fingerprint given for it.
pub open spec fn install_tasks(
    extensions: Seq<ExtensionStateView>,
    hashed: Seq<Option<Seq<char>>>,
) -> Seq<TaskView>
    decreases extensions.len(),
{
    if extensions.len() == 0 {
        Seq::empty()
    } else {
        let rest = install_tasks(extensions.drop_last(), hashed);
        let index = extensions.len() - 1;
        if extensions.last().is_active() {
            rest.push(TaskView::Install { index, fingerprint: fingerprint_at(hashed, index) })
        } else {
            rest
        }
    }
}

/// One removal task for each extension that is flagged for removal, in the
/// order of the desired state.
pub open spec fn removal_tasks(extensions: Seq<ExtensionStateView>) -> Seq<TaskView>
    decreases extensions.len(),
{
    if extensions.len() == 0 {
        Seq::empty()
    } else {
        let rest = removal_tasks(extensions.drop_last());
        if extensions.last().is_flagged_for_removal() {
            rest.push(TaskView::Remove { index: extensions.len() - 1 })
        } else {
            rest
        }
    }
}

/// The tasks of a pass: the installations first, then the removals.
pub open spec fn tasks_for(
    extensions: Seq<ExtensionStateView>,
    hashed: Seq<Option<Seq<char>>>,
) -> Seq<TaskView> {
    install_tasks(extensions, hashed) + removal_tasks(extensions)
}

/// The fingerprint of each extension that is active, and `None` for every
/// other extension.
pub open spec fn fingerprints_of(extensions: Seq<ExtensionStateView>) -> Seq<Option<Seq<char>>> {
    extensions.map_values(
        |e: ExtensionStateView|
            if e.is_active() {
                Some(e.fingerprint())
            } else {
                None
            },
    )
}

/// Whether each fingerprint that is given is the fingerprint of the
/// extension at its place.
pub open spec fn fingerprints_match(
    extensions: Seq<ExtensionStateView>,
    hashed: Seq<Option<Seq<char>>>,
) -> bool {
    &&& hashed.len() == extensions.len()
    &&& forall|i: int|
        0 <= i < hashed.len() ==> ((#[trigger] hashed[i]) matches Some(h) ==> h
            == extensions[i].fingerprint())
}

/// What was done for an extension where nothing failed.
#[derive(Debug, Clone, Copy, PartialEq, Eq, Structural)]
pub enum Applied {
    /// The version marker holds the fingerprint: nothing was done.
    UpToDate,
    /// The extension was installed or updated.
    Installed,
    /// The extension was removed, or was not there.
    Removal(Removal),
}

/// How a task ended.
#[derive(Debug, Clone, Copy, PartialEq, Eq)]
pub struct TaskOutcome {
    /// The place of the extension in the desired state.
    pub index: usize,
    pub result: Result<Applied, ExtensionError>,
}

/// What a pass did.
#[derive(Debug, PartialEq, Eq)]
pub struct PassReport {
    /// One outcome per task, in the order of the tasks.
    pub outcomes: Vec<TaskOutcome>,
    /// Whether the directories below the extensions directory could not
    /// be listed, so that nothing was swept.
    pub listing_failed: bool,
    /// The orphaned directories that were deleted.
    pub removed: Vec<String>,
    /// The orphaned directories that could not be deleted.
    pub left: Vec<String>,
}

/// The mathematical content of a [`PassReport`].
pub ghost struct PassReportView {
    pub outcomes: Seq<TaskOutcome>,
    pub listing_failed: bool,
    pub removed: Seq<Seq<char>>,
    pub left: Seq<Seq<char>>,
}

impl View for PassReport {
    type V = PassReportView;

    open spec fn view(&self) -> PassReportView {
        PassReportView {
            outcomes: self.outcomes@,
            listing_failed: self.listing_failed,
            removed: texts(self.removed@),
            left: texts(self.left@),
        }
    }
}

/// The report of a pass that has done nothing yet.
pub open spec fn empty_report() -> PassReportView {
    PassReportView {
        outcomes: Seq::empty(),
        listing_failed: false,
        removed: Seq::empty(),
        left: Seq::empty(),
    }
}

/// What a pass waits for.
pub ghost enum PhaseView {
    /// The version marker of the extension of the current task.
    Marker,
    /// The next event of the installation of the current task.
    Installing(InstallerView),
    /// The next event of the removal of the current task.
    Removing(RemoverView),
    /// The names of the directories below the extensions directory.
    Listing,
    /// The deletion of the orphan at `next`.
    Sweeping { orphans: Seq<Seq<char>>, next: int },
    /// Nothing: the pass has ended.
    Finished,
}

/// The mathematical content of a [`Reconciler`].
pub ghost struct PassView {
    pub root: Seq<char>,
    pub config: InstallrConfigView,
    pub tasks: Seq<TaskView>,
    /// The place of the current task; the number of tasks once all are
    /// done.
    pub cursor: int,
    pub phase: PhaseView,
    pub report: PassReportView,
}

/// What a pass does next.
#[derive(Debug, PartialEq, Eq)]
pub enum PassStep {
    /// Perform the effect and come back with its event.
    Perform(Action),
    /// The pass has ended; this is what it did.
    Finished(PassReport),
}

/// The mathematical content of a [`PassStep`].
pub ghost enum PassStepView {
    Perform(ActionView),
    Finished(PassReportView),
}

impl View for PassStep {
    type V = PassStepView;

    open spec fn view(&self) -> PassStepView {
        match self {
            PassStep::Perform(action) => PassStepView::Perform(action@),
            PassStep::Finished(report) => PassStepView::Finished(report@),
        }
    }
}

impl PassView {
    /// The extension that the current task is about.
    pub open spec fn current(self) -> ExtensionStateView {
        self.config.extensions[self.tasks[self.cursor].index()]
    }

    /// Whether the pass is in a state that it can reach: the desired state
    /// fits into memory, every task is about one of its extensions, the
    /// current task is of the kind that the phase works on, and there is
    /// one outcome for each task that is done, in the order of the tasks.
    pub open spec fn wf(self) -> bool {
        &&& 0 <= self.cursor <= self.tasks.len()
        &&& self.config.extensions.len() <= usize::MAX
        &&& forall|k: int|
            0 <= k < self.tasks.len() ==> 0 <= (#[trigger] self.tasks[k]).index()
                < self.config.extensions.len()
        &&& match self.phase {
            PhaseView::Marker => self.cursor < self.tasks.len() && self.tasks[self.cursor] is Install,
            PhaseView::Installing(_) => self.cursor < self.tasks.len()
                && self.tasks[self.cursor] is Install,
            PhaseView::Removing(_) => self.cursor < self.tasks.len()
                && self.tasks[self.cursor] is Remove,
            PhaseView::Listing => self.cursor == self.tasks.len(),
            PhaseView::Sweeping { orphans, next } => self.cursor == self.tasks.len() && 0 <= next
                < orphans.len(),
            PhaseView::Finished => true,
        }
        &&& !(self.phase is Finished) ==> {
            &&& self.report.outcomes.len() == self.cursor
            &&& forall|k: int|
                0 <= k < self.cursor ==> (#[trigger] self.report.outcomes[k]).index
                    == self.tasks[k].index()
        }
    }

    /// The pass with the current task done, `result` on record.
    pub open spec fn recorded(self, result: Result<Applied, ExtensionError>) -> PassView {
        PassView {
            cursor: self.cursor + 1,
            report: PassReportView {
                outcomes: self.report.outcomes.push(
                    TaskOutcome { index: self.tasks[self.cursor].index() as usize, result },
                ),
                ..self.report
            },
            ..self
        }
    }

    /// The pass takes up the task at its cursor, or lists the extensions
    /// directory once every task is done.
    pub open spec fn begin_task(self) -> (PassView, PassStepView) {
        if self.cursor < self.tasks.len() {
            match self.tasks[self.cursor] {
                TaskView::Install { .. } => (
                    PassView { phase: PhaseView::Marker, ..self },
                    PassStepView::Perform(
                        ActionView::ReadMarker {
                            path: version_marker(self.root, self.current().package_id()),
                        },
                    ),
                ),
                TaskView::Remove { .. } => {
                    let plan = removal_plan(self.root, self.current());
                    let (stage, first) = removal_start(plan);
                    (
                        PassView {
                            phase: PhaseView::Removing(RemoverView { plan, stage }),
                            ..self
                        },
                        PassStepView::Perform(first),
                    )
                },
            }
        } else {
            (
                PassView { phase: PhaseView::Listing, ..self },
                PassStepView::Perform(
                    ActionView::ListDirectories { path: extensions_root(self.root) },
                ),
            )
        }
    }

    /// The current task ends with `result`, and the pass goes on.
    pub open spec fn next_task(self, result: Result<Applied, ExtensionError>) -> (
        PassView,
        PassStepView,
    ) {
        self.recorded(result).begin_task()
    }

    /// The installation of the current task's extension begins.
    pub open spec fn begin_install(self, fingerprint: Seq<char>) -> (PassView, PassStepView) {
        let plan = install_plan(
            self.root,
            self.current(),
            fingerprint,
            self.config.package_endpoint(),
            self.config.package_cache,
        );
        let (stage, first) = install_start(plan);
        (
            PassView { phase: PhaseView::Installing(InstallerView { plan, stage }), ..self },
            PassStepView::Perform(first),
        )
    }

    /// The pass ends: it hands out its report and keeps none.
    pub open spec fn finish(self) -> (PassView, PassStepView) {
        (
            PassView { phase: PhaseView::Finished, report: empty_report(), ..self },
            PassStepView::Finished(self.report),
        )
    }

    /// The pass deletes the orphan at `next`, or ends once none is left.
    pub open spec fn sweep(self, orphans: Seq<Seq<char>>, next: int) -> (PassView, PassStepView) {
        if 0 <= next < orphans.len() {
            (
                PassView { phase: PhaseView::Sweeping { orphans, next }, ..self },
                PassStepView::Perform(
                    ActionView::RemoveTree { path: extension_dir(self.root, orphans[next]) },
                ),
            )
        } else {
            self.finish()
        }
    }

    /// The pass with the orphan `name` on record as deleted or left.
    pub open spec fn swept(self, name: Seq<char>, deleted: bool) -> PassView {
        if deleted {
            PassView {
                report: PassReportView { removed: self.report.removed.push(name), ..self.report },
                ..self
            }
        } else {
            PassView {
                report: PassReportView { left: self.report.left.push(name), ..self.report },
                ..self
            }
        }
    }
}

/// A pass over `config` below `root` that has not begun: the tasks are
/// laid out, none is done.
pub open spec fn pass_before_start(
    root: Seq<char>,
    config: InstallrConfigView,
    hashed: Seq<Option<Seq<char>>>,
) -> PassView {
    PassView {
        root,
        config,
        tasks: tasks_for(config.extensions, hashed),
        cursor: 0,
        phase: PhaseView::Listing,
        report: empty_report(),
    }
}

/// The first step of a pass.
pub open spec fn pass_start(
    root: Seq<char>,
    config: InstallrConfigView,
    hashed: Seq<Option<Seq<char>>>,
) -> (PassView, PassStepView) {
    pass_before_start(root, config, hashed).begin_task()
}

/// The rules of a pass: the state that follows `s` on `event`, and what to
/// do next. A task that fails is put on record like one that succeeds, and
/// the next task begins; after the last task the extensions directory is
/// listed and every orphan is deleted, without a script being run.
pub open spec fn pass_step(s: PassView, event: EventView) -> (PassView, PassStepView) {
    match s.phase {
        PhaseView::Marker => match (event, s.tasks[s.cursor]) {
            (EventView::Marker(read), TaskView::Install { fingerprint: Some(fingerprint), .. }) => {
                match read {
                    MarkerReadView::Unreadable => s.next_task(Err(ExtensionError::MarkerUnreadable)),
                    MarkerReadView::Absent => s.begin_install(fingerprint),
                    MarkerReadView::Content(text) => if marker_is_stale(Some(text), fingerprint) {
                        s.begin_install(fingerprint)
                    } else {
                        s.next_task(Ok(Applied::UpToDate))
                    },
                }
            },
            (EventView::Marker(_), _) => s.next_task(Err(ExtensionError::Canonicalization)),
            _ => s.next_task(Err(ExtensionError::UnexpectedEvent)),
        },
        PhaseView::Installing(installer) => match install_step(
            installer.plan,
            installer.stage,
            event,
        ) {
            (stage, InstallStepView::Perform(action)) => (
                PassView {
                    phase: PhaseView::Installing(InstallerView { plan: installer.plan, stage }),
                    ..s
                },
                PassStepView::Perform(action),
            ),
            (_, InstallStepView::Finished(Ok(_))) => s.next_task(Ok(Applied::Installed)),
            (_, InstallStepView::Finished(Err(e))) => s.next_task(Err(e)),
        },
        PhaseView::Removing(remover) => match removal_step(remover.plan, remover.stage, event) {
            (stage, RemovalStepView::Perform(action)) => (
                PassView {
                    phase: PhaseView::Removing(RemoverView { plan: remover.plan, stage }),
                    ..s
                },
                PassStepView::Perform(action),
            ),
            (_, RemovalStepView::Finished(Ok(removal))) => s.next_task(
                Ok(Applied::Removal(removal)),
            ),
            (_, RemovalStepView::Finished(Err(e))) => s.next_task(Err(e)),
        },
        PhaseView::Listing => match event {
            EventView::Listed(Some(names)) => s.sweep(orphans(s.config.package_ids(), names), 0),
            _ => PassView {
                report: PassReportView { listing_failed: true, ..s.report },
                ..s
            }.finish(),
        },
        PhaseView::Sweeping { orphans, next } => match event {
            EventView::Removed(deleted) => s.swept(orphans[next], deleted).sweep(orphans, next + 1),
            _ => s.swept(orphans[next], false).sweep(orphans, next + 1),
        },
        PhaseView::Finished => s.finish(),
    }
}

/// What a pass waits for.
enum Phase {
    Marker,
    Installing(Installer),
    Removing(Remover),
    Listing,
    Sweeping { orphans: Vec<String>, next: usize },
    Finished,
}

impl View for Phase {
    type V = PhaseView;

    closed spec fn view(&self) -> PhaseView {
        match self {
            Phase::Marker => PhaseView::Marker,
            Phase::Installing(installer) => PhaseView::Installing(installer@),
            Phase::Removing(remover) => PhaseView::Removing(remover@),
            Phase::Listing => PhaseView::Listing,
            Phase::Sweeping { orphans, next } => PhaseView::Sweeping {
                orphans: texts(orphans@),
                next: *next as int,
            },
            Phase::Finished => PhaseView::Finished,
        }
    }
}

/// One reconciliation pass, as far as it has come.
pub struct Reconciler {
    layout: Layout,
    config: InstallrConfig,
    tasks: Vec<Task>,
    cursor: usize,
    phase: Phase,
    report: PassReport,
}

impl View for Reconciler {
    type V = PassView;

    closed spec fn view(&self) -> PassView {
        PassView {
            root: self.layout@,
            config: self.config@,
            tasks: task_views(self.tasks@),
            cursor: self.cursor as int,
            phase: self.phase@,
            report: self.report@,
        }
    }
}

/// Every task that is laid out for a desired state is about one of its
/// extensions.
pub proof fn tasks_are_about_extensions(
    extensions: Seq<ExtensionStateView>,
    hashed: Seq<Option<Seq<char>>>,
)
    ensures
        forall|k: int|
            0 <= k < install_tasks(extensions, hashed).len() ==> 0 <= (#[trigger] install_tasks(
                extensions,
                hashed,
            )[k]).index() < extensions.len(),
        forall|k: int|
            0 <= k < removal_tasks(extensions).len() ==> 0 <= (#[trigger] removal_tasks(
                extensions,
            )[k]).index() < extensions.len(),
        forall|k: int|
            0 <= k < tasks_for(extensions, hashed).len() ==> 0 <= (#[trigger] tasks_for(
                extensions,
                hashed,
            )[k]).index() < extensions.len(),
    decreases extensions.len(),
{
    if extensions.len() > 0 {
        tasks_are_about_extensions(extensions.drop_last(), hashed);
        let installs = install_tasks(extensions, hashed);
        let earlier_installs = install_tasks(extensions.drop_last(), hashed);
        assert forall|k: int| 0 <= k < installs.len() implies 0 <= (#[trigger] installs[k]).index()
            < extensions.len() by {
            if k < earlier_installs.len() {
                assert(installs[k] == earlier_installs[k]);
            }
        }
        let removals = removal_tasks(extensions);
        let earlier_removals = removal_tasks(extensions.drop_last());
        assert forall|k: int| 0 <= k < removals.len() implies 0 <= (#[trigger] removals[k]).index()
            < extensions.len() by {
            if k < earlier_removals.len() {
                assert(removals[k] == earlier_removals[k]);
            }
        }
    }
}

/// The fingerprint of each extension that is active, and `None` for
/// every other extension, in the order of the desired state.
pub fn fingerprints(config: &InstallrConfig) -> (r: Vec<Option<String>>)
    ensures
        fingerprint_views(r@) == fingerprints_of(config@.extensions),
{
    let ghost extensions = config@.extensions;
    let mut hashed: Vec<Option<String>> = Vec::new();
    let mut i: usize = 0;
    while i < config.extensions.len()
        invariant
            extensions == config@.extensions,
            i <= config.extensions.len(),
            hashed@.len() == i,
            forall|j: int|
                0 <= j < i ==> optional_text(#[trigger] hashed@[j]) == fingerprints_of(
                    extensions,
                )[j],
        decreases config.extensions.len() - i,
    {
        let extension = &config.extensions[i];
        let entry = if extension.is_active() {
            match hash_extension_state(extension) {
                Ok(h) => Some(h),
                Err(_) => None,
            }
        } else {
            None
        };
        hashed.push(entry);
        i = i + 1;
    }
    assert(fingerprint_views(hashed@) =~= fingerprints_of(extensions));
    hashed
}

/// The extensions that are to be removed: one removal task for each
/// extension that is flagged for removal, in the order of the desired
/// state.
pub fn uninstall_extensions(config: &InstallrConfig) -> (r: Vec<Task>)
    ensures
        task_views(r@) == removal_tasks(config@.extensions),
{
    let ghost extensions = config@.extensions;
    let mut tasks: Vec<Task> = Vec::new();
    let n = config.extensions.len();
    let mut i: usize = 0;
    assert(task_views(tasks@) =~= removal_tasks(extensions.take(0)));
    while i < n
        invariant
            n == config.extensions.len(),
            extensions == config@.extensions,
            i <= n,
            task_views(tasks@) == removal_tasks(extensions.take(i as int)),
        decreases n - i,
    {
        let ghost prior = tasks@;
        proof {
            assert(extensions.take(i as int + 1).drop_last() =~= extensions.take(i as int));
            assert(extensions.take(i as int + 1).last() == config.extensions@[i as int]@);
        }
        if config.extensions[i].is_flagged_for_removal() {
            tasks.push(Task::Remove { index: i });
            assert(task_views(tasks@) =~= task_views(prior).push(tasks@[prior.len() as int]@));
        }
        i = i + 1;
    }
    assert(extensions.take(n as int) == extensions);
    tasks
}

/// The tasks of a pass over `config`: one installation for each extension
/// that is active, then one removal for each extension that is flagged for
/// removal, both in the order of the desired state. An installation has
/// the fingerprint that `hashed` holds at the place of its extension.
pub fn plan_tasks(config: &InstallrConfig, hashed: &Vec<Option<String>>) -> (r: Vec<Task>)
    ensures
        task_views(r@) == tasks_for(config@.extensions, fingerprint_views(hashed@)),
{
    let ghost extensions = config@.extensions;
    let ghost given = fingerprint_views(hashed@);
    let mut tasks: Vec<Task> = Vec::new();
    let n = config.extensions.len();
    let mut i: usize = 0;
    assert(task_views(tasks@) =~= install_tasks(extensions.take(0), given));
    while i < n
        invariant
            n == config.extensions.len(),
            extensions == config@.extensions,
            given == fingerprint_views(hashed@),
            i <= n,
            task_views(tasks@) == install_tasks(extensions.take(i as int), given),
        decreases n - i,
    {
        let ghost prior = tasks@;
        proof {
            assert(extensions.take(i as int + 1).drop_last() =~= extensions.take(i as int));
            assert(extensions.take(i as int + 1).last() == config.extensions@[i as int]@);
        }
        if config.extensions[i].is_active() {
            let fingerprint = if i < hashed.len() {
                match &hashed[i] {
                    Some(h) => Some(h.clone()),
                    None => None,
                }
            } else {
                None
            };
            tasks.push(Task::Install { index: i, fingerprint });
            assert(task_views(tasks@) =~= task_views(prior).push(tasks@[prior.len() as int]@));
        }
        i = i + 1;
    }
    assert(extensions.take(n as int) == extensions);
    let ghost installs = tasks@;
    let mut removals = uninstall_extensions(config);
    let ghost removed = removals@;
    tasks.append(&mut removals);
    assert(task_views(tasks@) =~= task_views(installs) + task_views(removed));
    tasks
}

impl PassReport {
    /// The report of a pass that has done nothing yet.
    pub fn new() -> (r: PassReport)
        ensures
            r@ == empty_report(),
    {
        let r = PassReport {
            outcomes: Vec::new(),
            listing_failed: false,
            removed: Vec::new(),
            left: Vec::new(),
        };
        assert(texts(r.removed@) =~= Seq::empty());
        assert(texts(r.left@) =~= Seq::empty());
        r
    }
}

impl Reconciler {
    /// Whether the pass is in a state that it can reach.
    pub open spec fn wf(&self) -> bool {
        self@.wf()
    }

    /// Whether the pass has ended.
    pub fn is_finished(&self) -> (r: bool)
        ensures
            r == (self@.phase is Finished),
    {
        match self.phase {
            Phase::Finished => true,
            _ => false,
        }
    }

    /// The number of tasks that are done.
    pub fn tasks_done(&self) -> (r: usize)
        ensures
            r == self@.cursor,
    {
        self.cursor
    }

    /// The number of tasks of the pass.
    pub fn task_count(&self) -> (r: usize)
        ensures
            r == self@.tasks.len(),
    {
        self.tasks.len()
    }

    fn index_at_cursor(&self) -> (r: usize)
        requires
            self@.cursor < self@.tasks.len(),
            0 <= self@.tasks[self@.cursor].index() < self@.config.extensions.len(),
        ensures
            r == self@.tasks[self@.cursor].index(),
            r < self.config.extensions@.len(),
    {
        match &self.tasks[self.cursor] {
            Task::Install { index, .. } => *index,
            Task::Remove { index } => *index,
        }
    }

    fn begin_task(&mut self) -> (r: PassStep)
        requires
            old(self)@.cursor <= old(self)@.tasks.len(),
            forall|k: int|
                0 <= k < old(self)@.tasks.len() ==> 0 <= (#[trigger] old(self)@.tasks[k]).index()
                    < old(self)@.config.extensions.len(),
        ensures
            (final(self)@, r@) == old(self)@.begin_task(),
    {
        if self.cursor < self.tasks.len() {
            let index = self.index_at_cursor();
            let installs = match &self.tasks[self.cursor] {
                Task::Install { .. } => true,
                Task::Remove { .. } => false,
            };
            if installs {
                let package_id = self.config.extensions[index].get_package_id();
                self.phase = Phase::Marker;
                PassStep::Perform(
                    Action::ReadMarker { path: self.layout.version_marker(package_id.as_str()) },
                )
            } else {
                let (remover, first) = uninstall_extension(
                    &self.layout,
                    &self.config.extensions[index],
                );
                self.phase = Phase::Removing(remover);
                PassStep::Perform(first)
            }
        } else {
            self.phase = Phase::Listing;
            PassStep::Perform(Action::ListDirectories { path: self.layout.extensions_root() })
        }
    }

    fn next_task(&mut self, result: Result<Applied, ExtensionError>) -> (r: PassStep)
        requires
            old(self)@.cursor < old(self)@.tasks.len(),
            forall|k: int|
                0 <= k < old(self)@.tasks.len() ==> 0 <= (#[trigger] old(self)@.tasks[k]).index()
                    < old(self)@.config.extensions.len(),
        ensures
            (final(self)@, r@) == old(self)@.next_task(result),
    {
        let index = self.index_at_cursor();
        assert(self.tasks.len() == self.tasks@.len());
        self.report.outcomes.push(TaskOutcome { index, result });
        self.cursor = self.cursor + 1;
        self.begin_task()
    }

    fn begin_install(&mut self, fingerprint: String) -> (r: PassStep)
        requires
            old(self)@.cursor < old(self)@.tasks.len(),
            forall|k: int|
                0 <= k < old(self)@.tasks.len() ==> 0 <= (#[trigger] old(self)@.tasks[k]).index()
                    < old(self)@.config.extensions.len(),
        ensures
            (final(self)@, r@) == old(self)@.begin_install(fingerprint@),
    {
        let index = self.index_at_cursor();
        let endpoint = self.config.get_package_endpoint();
        let plan = InstallPlan::new(
            &self.layout,
            &self.config.extensions[index],
            fingerprint,
            endpoint.as_str(),
            self.config.package_cache.as_str(),
        );
        let (installer, first) = Installer::start(plan);
        self.phase = Phase::Installing(installer);
        PassStep::Perform(first)
    }

    fn finish(&mut self) -> (r: PassStep)
        ensures
            (final(self)@, r@) == old(self)@.finish(),
    {
        let mut report = PassReport::new();
        std::mem::swap(&mut self.report, &mut report);
        self.phase = Phase::Finished;
        PassStep::Finished(report)
    }

    fn sweep(&mut self, orphans: Vec<String>, next: usize) -> (r: PassStep)
        ensures
            (final(self)@, r@) == old(self)@.sweep(texts(orphans@), next as int),
    {
        if next < orphans.len() {
            let path = self.layout.extension_dir(orphans[next].as_str());
            self.phase = Phase::Sweeping { orphans, next };
            PassStep::Perform(Action::RemoveTree { path })
        } else {
            self.finish()
        }
    }

    fn record_swept(&mut self, name: String, deleted: bool)
        ensures
            final(self)@ == old(self)@.swept(name@, deleted),
    {
        if deleted {
            let ghost prior = self.report.removed@;
            self.report.removed.push(name);
            assert(texts(self.report.removed@) =~= texts(prior).push(name@));
        } else {
            let ghost prior = self.report.left@;
            self.report.left.push(name);
            assert(texts(self.report.left@) =~= texts(prior).push(name@));
        }
    }

    /// A pass over `config` below the root of `layout`, with the
    /// fingerprints given for its extensions, and its first step.
    pub fn with_fingerprints(layout: Layout, config: InstallrConfig, hashed: Vec<Option<String>>) -> (r:
        (Reconciler, PassStep))
        ensures
            r.0.wf(),
            (r.0@, r.1@) == pass_start(layout@, config@, fingerprint_views(hashed@)),
    {
        let tasks = plan_tasks(&config, &hashed);
        assert(config.extensions.len() == config.extensions@.len());
        proof {
            tasks_are_about_extensions(config@.extensions, fingerprint_views(hashed@));
        }
        let mut pass = Reconciler {
            layout,
            config,
            tasks,
            cursor: 0,
            phase: Phase::Listing,
            report: PassReport::new(),
        };
        let first = pass.begin_task();
        (pass, first)
    }

    /// Takes the event that answers the pending effect and says what to
    /// do next.
    pub fn step(&mut self, event: Event) -> (r: PassStep)
        requires
            old(self).wf(),
        ensures
            final(self).wf(),
            (final(self)@, r@) == pass_step(old(self)@, event@),
    {
        let mut phase = Phase::Finished;
        std::mem::swap(&mut self.phase, &mut phase);
        match phase {
            Phase::Marker => {
                let fingerprint = match &self.tasks[self.cursor] {
                    Task::Install { fingerprint: Some(h), .. } => Some(h.clone()),
                    _ => None,
                };
                match event {
                    Event::Marker(read) => match fingerprint {
                        Some(h) => match read {
                            MarkerRead::Unreadable => self.next_task(
                                Err(ExtensionError::MarkerUnreadable),
                            ),
                            MarkerRead::Absent => self.begin_install(h),
                            MarkerRead::Content(text) => {
                                if is_marker_stale(Some(text.as_str()), h.as_str()) {
                                    self.begin_install(h)
                                } else {
                                    self.next_task(Ok(Applied::UpToDate))
                                }
                            },
                        },
                        None => self.next_task(Err(ExtensionError::Canonicalization)),
                    },
                    _ => self.next_task(Err(ExtensionError::UnexpectedEvent)),
                }
            },
            Phase::Installing(installer) => {
                let mut installer = installer;
                match installer.step(event) {
                    InstallStep::Perform(action) => {
                        self.phase = Phase::Installing(installer);
                        PassStep::Perform(action)
                    },
                    InstallStep::Finished(Ok(_)) => self.next_task(Ok(Applied::Installed)),
                    InstallStep::Finished(Err(e)) => self.next_task(Err(e)),
                }
            },
            Phase::Removing(remover) => {
                let mut remover = remover;
                match remover.step(event) {
                    RemovalStep::Perform(action) => {
                        self.phase = Phase::Removing(remover);
                        PassStep::Perform(action)
                    },
                    RemovalStep::Finished(Ok(removal)) => self.next_task(
                        Ok(Applied::Removal(removal)),
                    ),
                    RemovalStep::Finished(Err(e)) => self.next_task(Err(e)),
                }
            },
            Phase::Listing => match event {
                Event::Listed(Some(names)) => {
                    let orphans = clean_extension_dir(&self.config, names);
                    self.sweep(orphans, 0)
                },
                _ => {
                    self.report.listing_failed = true;
                    self.finish()
                },
            },
            Phase::Sweeping { orphans, next } => {
                assert(orphans.len() == orphans@.len());
                let deleted = match event {
                    Event::Removed(deleted) => deleted,
                    _ => false,
                };
                self.record_swept(orphans[next].clone(), deleted);
                self.sweep(orphans, next + 1)
            },
            Phase::Finished => self.finish(),
        }
    }
}

/// Begins a pass over `config` below the root of `layout`: the pass, laid
/// out with the fingerprint of every active extension, and its first
/// step.
pub fn reconcile_extensions(layout: Layout, config: InstallrConfig) -> (r: (Reconciler, PassStep))
    ensures
        r.0.wf(),
        (r.0@, r.1@) == pass_start(layout@, config@, fingerprints_of(config@.extensions)),
{
    let hashed = fingerprints(&config);
    Reconciler::with_fingerprints(layout, config, hashed)
}

/// The fingerprints that a pass is laid out with are those of its
/// extensions.
pub proof fn computed_fingerprints_match(extensions: Seq<ExtensionStateView>)
    ensures
        fingerprints_match(extensions, fingerprints_of(extensions)),
{
}

} // verus!
