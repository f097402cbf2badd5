//! What holds of installations, removals and passes, however the effects
//! that they ask for turn out.

use crate::archive::{lies_below, op_path, plan_stays_below_the_target, planned, unpacked};
use crate::digest::{marker_is_stale, needs_work};
use crate::effect::{ActionView, EventView, MarkerReadView};
use crate::error::ExtensionError;
use crate::install::{
    install_start, install_step, InstallPlanView, InstallStageView, InstallStepView,
};
use crate::layout::extension_dir;
use crate::reconcile::{pass_step, Applied, PassStepView, PassView, PhaseView, TaskView};
use crate::uninstall::{
    orphans, removal_step, Removal, RemovalPlanView, RemovalStageView, RemovalStepView,
};
use vstd::prelude::*;

verus! {

/// How far an installation has come: each stage lies beyond the ones
/// before it.
pub open spec fn install_rank(stage: InstallStageView) -> nat {
    match stage {
        InstallStageView::CacheProbe => 0,
        InstallStageView::Download => 1,
        InstallStageView::Store => 2,
        InstallStageView::Archive => 3,
        InstallStageView::Unpack => 4,
        InstallStageView::ScriptProbe => 5,
        InstallStageView::RanProbe => 6,
        InstallStageView::Script => 7,
        InstallStageView::RunLog { .. } => 8,
        InstallStageView::RanMarker { .. } => 9,
        InstallStageView::VersionMarker => 10,
        InstallStageView::Finished => 11,
    }
}

/// How far a removal has come.
pub open spec fn removal_rank(stage: RemovalStageView) -> nat {
    match stage {
        RemovalStageView::DirectoryProbe => 0,
        RemovalStageView::Manifest => 1,
        RemovalStageView::NamedScriptProbe { .. } => 2,
        RemovalStageView::FallbackScriptProbe => 3,
        RemovalStageView::Script => 4,
        RemovalStageView::Deletion { .. } => 5,
        RemovalStageView::Finished => 6,
    }
}

/// The stage of an installation after a sequence of events.
pub open spec fn install_run(plan: InstallPlanView, stage: InstallStageView, events: Seq<EventView>) -> InstallStageView
    decreases events.len(),
{
    if events.len() == 0 {
        stage
    } else {
        install_step(plan, install_run(plan, stage, events.drop_last()), events.last()).0
    }
}

/// What an installation says on the last of a sequence of events.
pub open spec fn install_says(plan: InstallPlanView, stage: InstallStageView, events: Seq<EventView>) -> InstallStepView
    recommends
        events.len() > 0,
{
    install_step(plan, install_run(plan, stage, events.drop_last()), events.last()).1
}

/// An installation never goes back: every event takes it to a later
/// stage, and it names an effect exactly as long as it has not ended.
pub proof fn installation_advances(plan: InstallPlanView, stage: InstallStageView, event: EventView)
    ensures
        !(stage is Finished) ==> install_rank(install_step(plan, stage, event).0) > install_rank(
            stage,
        ),
        install_step(plan, stage, event).1 is Finished <==> install_step(plan, stage, event).0 is Finished,
{
}

/// Install-once, the download. An installation asks for a download only
/// in answer to a cache probe that found nothing, and then from the
/// address of its plan.
pub proof fn download_only_on_cache_miss(plan: InstallPlanView, stage: InstallStageView, event: EventView)
    requires
        install_step(plan, stage, event).1 matches InstallStepView::Perform(action) && (action is Download),
    ensures
        stage is CacheProbe,
        event == EventView::Probed(false),
        install_step(plan, stage, event).1 == InstallStepView::Perform(
            ActionView::Download { url: plan.url },
        ),
{
}

/// Install-once, the script. An installation runs a script only in answer
/// to a probe that found no marker of an earlier run, and then the install
/// script of its plan.
pub proof fn script_runs_only_without_ran_marker(
    plan: InstallPlanView,
    stage: InstallStageView,
    event: EventView,
)
    requires
        install_step(plan, stage, event).1 matches InstallStepView::Perform(action) && (action is RunScript),
    ensures
        stage is RanProbe,
        event == EventView::Probed(false),
        install_step(plan, stage, event).1 == InstallStepView::Perform(
            ActionView::RunScript { path: plan.script },
        ),
{
}

/// Install-once, over a whole installation. Where the archive is found in
/// the cache, nothing is downloaded and nothing is written into the cache,
/// whatever events follow.
pub proof fn cached_package_is_not_fetched_again(plan: InstallPlanView, events: Seq<EventView>)
    requires
        events.len() > 0,
        events[0] == EventView::Probed(true),
    ensures
        install_rank(install_run(plan, install_start(plan).0, events)) >= 3,
        !(install_says(plan, install_start(plan).0, events) matches InstallStepView::Perform(action)
            && (action is Download || action is StoreArtifact)),
    decreases events.len(),
{
    let start = install_start(plan).0;
    if events.len() == 1 {
        assert(events.drop_last().len() == 0);
        assert(events.last() == events[0]);
    } else {
        let earlier = events.drop_last();
        assert(earlier[0] == events[0]);
        cached_package_is_not_fetched_again(plan, earlier);
        installation_advances(plan, install_run(plan, start, earlier), events.last());
    }
}

/// Install-once, over a whole installation. From the moment a marker of
/// an earlier run is found, no script is run, whatever events follow.
pub proof fn script_that_ran_is_not_run_again(plan: InstallPlanView, events: Seq<EventView>)
    requires
        events.len() > 0,
        events[0] == EventView::Probed(true),
    ensures
        install_rank(install_run(plan, InstallStageView::RanProbe, events)) >= 10,
        !(install_says(plan, InstallStageView::RanProbe, events) matches InstallStepView::Perform(
            action,
        ) && (action is RunScript)),
    decreases events.len(),
{
    let start = InstallStageView::RanProbe;
    if events.len() == 1 {
        assert(events.drop_last().len() == 0);
        assert(events.last() == events[0]);
    } else {
        let earlier = events.drop_last();
        assert(earlier[0] == events[0]);
        script_that_ran_is_not_run_again(plan, earlier);
        installation_advances(plan, install_run(plan, start, earlier), events.last());
    }
}

/// An installation succeeds only when its version marker has been written,
/// and what it writes there is the fingerprint of its plan: after a
/// successful installation the marker of the package holds the fingerprint.
pub proof fn success_records_the_fingerprint(
    plan: InstallPlanView,
    stage: InstallStageView,
    event: EventView,
)
    ensures
        install_step(plan, stage, event).1 == InstallStepView::Finished(Ok(())) ==> stage is VersionMarker
            && event == EventView::Written(true),
        install_step(plan, stage, event).0 is VersionMarker ==> install_step(plan, stage, event).1
            == InstallStepView::Perform(
            ActionView::WriteText { path: plan.version_marker, contents: plan.fingerprint },
        ),
        install_step(plan, stage, event).1 matches InstallStepView::Perform(action) && (
        action matches ActionView::WriteText { path, .. } && path == plan.version_marker
            && plan.version_marker != plan.ran_marker) ==> install_step(plan, stage, event).0 is VersionMarker,
{
}

/// A script that fails still has its run recorded and marked, so that it
/// is not run again; the fingerprint is not recorded, and the installation
/// fails with the script's exit code.
pub proof fn failed_script_is_marked_but_not_applied(
    plan: InstallPlanView,
    executed_at: Seq<char>,
    exit_code: i32,
)
    requires
        exit_code != 0,
    ensures
        install_step(
            plan,
            InstallStageView::RunLog { executed_at, exit_code },
            EventView::Written(true),
        ) == (
            InstallStageView::RanMarker { exit_code },
            InstallStepView::Perform(
                ActionView::WriteText { path: plan.ran_marker, contents: executed_at },
            ),
        ),
        install_step(plan, InstallStageView::RanMarker { exit_code }, EventView::Written(true)) == (
            InstallStageView::Finished,
            InstallStepView::Finished(Err(ExtensionError::ScriptFailed(exit_code))),
        ),
{
}

/// An installation deletes nothing and writes only what is its own: the
/// archive in the cache, entries below its version directory, the record
/// and the marker of its script's run in that directory, and the version
/// marker of its package. The directory of another version is left as it
/// is.
pub proof fn installation_writes_only_its_own(
    plan: InstallPlanView,
    stage: InstallStageView,
    event: EventView,
)
    ensures
        match install_step(plan, stage, event).1 {
            InstallStepView::Perform(ActionView::RemoveTree { .. }) => false,
            InstallStepView::Perform(ActionView::StoreArtifact { path, .. }) => path
                == plan.cache_path,
            InstallStepView::Perform(ActionView::WriteRunLog { path, .. }) => path == plan.run_log,
            InstallStepView::Perform(ActionView::WriteText { path, .. }) => path == plan.ran_marker
                || path == plan.version_marker,
            InstallStepView::Perform(ActionView::Unpack { target, ops }) => target
                == plan.target_dir && forall|i: int|
                0 <= i < ops.len() ==> lies_below(op_path(#[trigger] ops[i]), plan.target_dir),
            _ => true,
        },
{
    if let InstallStepView::Perform(ActionView::Unpack { target, ops }) = install_step(
        plan,
        stage,
        event,
    ).1 {
        let bytes = event->Archive_0->Some_0;
        assert(planned(plan.target_dir, unpacked(bytes)) == Ok::<
            Seq<crate::archive::ExtractOpView>,
            ExtensionError,
        >(ops));
        assert forall|i: int| 0 <= i < ops.len() implies lies_below(
            op_path(#[trigger] ops[i]),
            plan.target_dir,
        ) by {
            plan_stays_below_the_target(plan.target_dir, unpacked(bytes), i);
        }
    }
}

/// A pass deletes a directory only to remove an extension that is flagged
/// for removal, with all its versions, or to sweep an orphan away: while it
/// installs or updates, it deletes nothing, so that the tree of the version
/// that was installed before stays.
pub proof fn only_removal_and_sweep_delete(s: PassView, event: EventView)
    requires
        s.wf(),
        pass_step(s, event).1 matches PassStepView::Perform(action) && (action is RemoveTree),
    ensures
        match s.phase {
            PhaseView::Removing(remover) => s.tasks[s.cursor] is Remove && pass_step(s, event).1
                == PassStepView::Perform(
                ActionView::RemoveTree { path: remover.plan.extension_dir },
            ),
            PhaseView::Listing => true,
            PhaseView::Sweeping { .. } => true,
            _ => false,
        },
{
    match s.phase {
        PhaseView::Installing(installer) => {
            installation_writes_only_its_own(installer.plan, installer.stage, event);
        },
        _ => {},
    }
}

/// A removal never goes back, and it names an effect exactly as long as
/// it has not ended.
pub proof fn removal_advances(plan: RemovalPlanView, stage: RemovalStageView, event: EventView)
    ensures
        !(stage is Finished) ==> removal_rank(removal_step(plan, stage, event).0) > removal_rank(
            stage,
        ),
        removal_step(plan, stage, event).1 is Finished <==> removal_step(plan, stage, event).0 is Finished,
{
}

/// An extension whose directory is not there is removed already: the
/// removal ends at once, without a failure and without an effect.
pub proof fn absent_extension_is_removed_already(plan: RemovalPlanView)
    ensures
        removal_step(plan, RemovalStageView::DirectoryProbe, EventView::Probed(false)) == (
            RemovalStageView::Finished,
            RemovalStepView::Finished(Ok(Removal::AlreadyAbsent)),
        ),
{
}

/// An uninstall script that fails, or cannot be started, does not keep the
/// directory from being deleted.
pub proof fn failed_uninstall_script_does_not_stop_removal(plan: RemovalPlanView, event: EventView)
    requires
        event is ScriptFinished,
    ensures
        removal_step(plan, RemovalStageView::Script, event).1 == RemovalStepView::Perform(
            ActionView::RemoveTree { path: plan.extension_dir },
        ),
{
}

/// A removal succeeds with the directory gone only when the deletion of
/// the extension's directory has been answered with success.
pub proof fn removal_succeeds_only_after_deletion(
    plan: RemovalPlanView,
    stage: RemovalStageView,
    event: EventView,
)
    requires
        removal_step(plan, stage, event).1 matches RemovalStepView::Finished(Ok(removal)) && removal
            != Removal::AlreadyAbsent,
    ensures
        stage is Deletion,
        event == EventView::Removed(true),
{
}

/// The state of a pass after a sequence of events.
pub open spec fn pass_run(s: PassView, events: Seq<EventView>) -> PassView
    decreases events.len(),
{
    if events.len() == 0 {
        s
    } else {
        pass_step(pass_run(s, events.drop_last()), events.last()).0
    }
}

/// What a pass says on the last of a sequence of events.
pub open spec fn pass_says(s: PassView, events: Seq<EventView>) -> PassStepView
    recommends
        events.len() > 0,
{
    pass_step(pass_run(s, events.drop_last()), events.last()).1
}

/// Every step of a pass leads from a state that it can reach to another.
pub proof fn pass_step_keeps_wf(s: PassView, event: EventView)
    requires
        s.wf(),
    ensures
        pass_step(s, event).0.wf(),
{
}

/// Every run of a pass leads from a state that it can reach to another.
pub proof fn pass_run_keeps_wf(s: PassView, events: Seq<EventView>)
    requires
        s.wf(),
    ensures
        pass_run(s, events).wf(),
    decreases events.len(),
{
    if events.len() > 0 {
        pass_run_keeps_wf(s, events.drop_last());
        pass_step_keeps_wf(pass_run(s, events.drop_last()), events.last());
    }
}

/// A pass works on the desired state and the tasks that it began with.
pub proof fn pass_run_keeps_the_plan(s: PassView, events: Seq<EventView>)
    ensures
        pass_run(s, events).root == s.root,
        pass_run(s, events).config == s.config,
        pass_run(s, events).tasks == s.tasks,
    decreases events.len(),
{
    if events.len() > 0 {
        pass_run_keeps_the_plan(s, events.drop_last());
    }
}

/// What a version marker holds, as the rule for needing work takes it.
pub open spec fn marker_content(read: MarkerReadView) -> Option<Seq<char>> {
    match read {
        MarkerReadView::Content(text) => Some(text),
        _ => None,
    }
}

/// A pass begins the installation of an extension exactly where the
/// extension needs work: where it has no version marker, or the marker
/// does not hold the fingerprint of the extension. Where it needs none,
/// the task ends as up to date and nothing is done.
pub proof fn installation_begins_exactly_where_needed(s: PassView, read: MarkerReadView)
    requires
        s.wf(),
        s.phase is Marker,
        s.current().is_active(),
        s.tasks[s.cursor] matches TaskView::Install { fingerprint: Some(h), .. } && h
            == s.current().fingerprint(),
        !(read is Unreadable),
    ensures
        pass_step(s, EventView::Marker(read)).0.phase is Installing <==> needs_work(
            s.current(),
            marker_content(read),
        ),
        !needs_work(s.current(), marker_content(read)) ==> pass_step(s, EventView::Marker(read))
            == s.next_task(Ok(Applied::UpToDate)),
        needs_work(s.current(), marker_content(read)) ==> pass_step(s, EventView::Marker(read))
            == s.begin_install(s.current().fingerprint()),
{
}

/// Partial-failure isolation. How a task ends has no bearing on what the
/// pass does next: the same effect follows a failure as follows a success,
/// and the states differ in the outcome on record alone.
pub proof fn failure_does_not_change_what_follows(
    s: PassView,
    failure: ExtensionError,
    success: Applied,
)
    requires
        s.wf(),
        s.cursor < s.tasks.len(),
    ensures
        s.next_task(Err(failure)).1 == s.next_task(Ok(success)).1,
        s.next_task(Err(failure)).0.cursor == s.cursor + 1,
        s.next_task(Err(failure)).0.phase == s.next_task(Ok(success)).0.phase,
        s.next_task(Err(failure)).1 is Perform,
{
}

/// Partial-failure isolation. When an installation or a removal fails,
/// the pass puts the failure on record and takes up the next task, or
/// lists the extensions directory where it was the last: it never ends on
/// a failure.
pub proof fn failed_task_is_followed_by_the_next(s: PassView, event: EventView)
    requires
        s.wf(),
        s.phase is Installing || s.phase is Removing || s.phase is Marker,
    ensures
        pass_step(s, event).1 is Perform,
        pass_step(s, event).0.cursor == s.cursor || pass_step(s, event).0.cursor == s.cursor + 1,
        pass_step(s, event).0.cursor == s.cursor + 1 ==> {
            let next = pass_step(s, event).0;
            &&& next.report.outcomes == s.report.outcomes.push(next.report.outcomes.last())
            &&& next.report.outcomes.last().index == s.tasks[s.cursor].index()
            &&& pass_step(s, event) == s.next_task(next.report.outcomes.last().result)
        },
{
}

/// The events that a pass can still take before every task is done.
pub open spec fn events_left(s: PassView) -> int {
    match s.phase {
        PhaseView::Marker => 13 * (s.tasks.len() - s.cursor),
        PhaseView::Installing(installer) => 13 * (s.tasks.len() - s.cursor) - 1 - install_rank(
            installer.stage,
        ),
        PhaseView::Removing(remover) => 13 * (s.tasks.len() - s.cursor) - removal_rank(
            remover.stage,
        ),
        _ => 0,
    }
}

/// Whether every task of the pass is done.
pub open spec fn tasks_done(s: PassView) -> bool {
    s.phase is Listing || s.phase is Sweeping || s.phase is Finished
}

/// Every event brings a pass closer to the end of its tasks.
pub proof fn pass_step_uses_up_an_event(s: PassView, event: EventView)
    requires
        s.wf(),
        !tasks_done(s),
    ensures
        events_left(pass_step(s, event).0) < events_left(s),
        events_left(pass_step(s, event).0) >= 0,
        tasks_done(pass_step(s, event).0) ==> pass_step(s, event).0.phase is Listing,
{
    installation_step_cases(s, event);
}

proof fn installation_step_cases(s: PassView, event: EventView)
    requires
        s.wf(),
        !tasks_done(s),
    ensures
        s.phase matches PhaseView::Installing(installer) ==> install_rank(
            install_step(installer.plan, installer.stage, event).0,
        ) > install_rank(installer.stage) || installer.stage is Finished,
        s.phase matches PhaseView::Removing(remover) ==> removal_rank(
            removal_step(remover.plan, remover.stage, event).0,
        ) > removal_rank(remover.stage) || remover.stage is Finished,
{
    match s.phase {
        PhaseView::Installing(installer) => {
            installation_advances(installer.plan, installer.stage, event);
        },
        PhaseView::Removing(remover) => {
            removal_advances(remover.plan, remover.stage, event);
        },
        _ => {},
    }
}

/// Partial-failure isolation, over a whole pass. Whatever the events are,
/// failures among them or not, a pass has dealt with every one of its tasks
/// after at most thirteen events for each task that was left, and then has
/// an outcome on record for each task, in the order of the tasks.
pub proof fn every_task_is_dealt_with(s: PassView, events: Seq<EventView>)
    requires
        s.wf(),
        !(s.phase is Finished),
    ensures
        tasks_done(pass_run(s, events)) || events_left(pass_run(s, events)) + events.len()
            <= events_left(s),
        events.len() >= 13 * (s.tasks.len() - s.cursor) ==> tasks_done(pass_run(s, events)),
        pass_run(s, events).tasks == s.tasks,
        !(pass_run(s, events).phase is Finished) && tasks_done(pass_run(s, events)) ==> {
            let report = pass_run(s, events).report;
            &&& report.outcomes.len() == s.tasks.len()
            &&& forall|k: int|
                0 <= k < s.tasks.len() ==> (#[trigger] report.outcomes[k]).index
                    == s.tasks[k].index()
        },
    decreases events.len(),
{
    if events.len() > 0 {
        let earlier = events.drop_last();
        every_task_is_dealt_with(s, earlier);
        let before = pass_run(s, earlier);
        pass_run_keeps_wf(s, earlier);
        pass_step_keeps_wf(before, events.last());
        if !tasks_done(before) {
            pass_step_uses_up_an_event(before, events.last());
        }
    }
    if tasks_done(s) {
    } else {
        installation_bounds(s);
    }
}

proof fn installation_bounds(s: PassView)
    requires
        s.wf(),
    ensures
        events_left(s) <= 13 * (s.tasks.len() - s.cursor),
{
}

/// The report that a pass hands out at its end has an outcome for each of
/// its tasks, in the order of the tasks.
pub proof fn finished_report_is_complete(s: PassView, event: EventView)
    requires
        s.wf(),
        !(s.phase is Finished),
        pass_step(s, event).1 is Finished,
    ensures
        ({
            let report = pass_step(s, event).1->Finished_0;
            &&& report.outcomes == s.report.outcomes
            &&& report.outcomes.len() == s.tasks.len()
            &&& forall|k: int|
                0 <= k < s.tasks.len() ==> (#[trigger] report.outcomes[k]).index
                    == s.tasks[k].index()
        }),
{
}

/// Orphan removal. Once the tasks are done, a pass runs no script and
/// fetches and unpacks nothing: all it does is to delete the directories
/// that the listing showed and the desired state does not name.
pub proof fn sweep_deletes_orphans_and_runs_no_script(s: PassView, event: EventView)
    requires
        s.wf(),
        s.phase is Listing || s.phase is Sweeping,
    ensures
        match pass_step(s, event) {
            (next, PassStepView::Perform(action)) => {
                &&& next.phase matches PhaseView::Sweeping { orphans: found, next: at }
                &&& action == ActionView::RemoveTree { path: extension_dir(s.root, found[at]) }
                &&& !s.config.package_ids().contains(found[at]) || s.phase is Sweeping
                &&& (s.phase matches PhaseView::Sweeping { orphans: before, next: done } ==> found
                    == before && at == done + 1)
                &&& (s.phase is Listing ==> at == 0 && (event matches EventView::Listed(Some(names))
                    && found == orphans(s.config.package_ids(), names)))
            },
            (next, PassStepView::Finished(_)) => next.phase is Finished,
        },
{
    if s.phase is Listing {
        if let EventView::Listed(Some(names)) = event {
            let found = orphans(s.config.package_ids(), names);
            if found.len() > 0 {
                let keep = |name: Seq<char>| !s.config.package_ids().contains(name);
                names.lemma_filter_pred(keep, 0);
            }
        }
    }
}

/// Orphan removal, over a whole sweep. After the listing, the pass asks for
/// the deletion of each orphan in turn, whatever the deletions before it
/// came to, and ends when the last has been answered.
pub proof fn every_orphan_is_deleted(s: PassView, names: Seq<Seq<char>>, answers: Seq<EventView>)
    requires
        s.wf(),
        s.phase is Listing,
        answers.len() <= orphans(s.config.package_ids(), names).len(),
    ensures
        ({
            let found = orphans(s.config.package_ids(), names);
            let events = seq![EventView::Listed(Some(names))] + answers;
            let end = pass_run(s, events);
            &&& answers.len() < found.len() ==> end.phase == (PhaseView::Sweeping {
                orphans: found,
                next: answers.len() as int,
            }) && pass_says(s, events) == PassStepView::Perform(
                ActionView::RemoveTree { path: extension_dir(s.root, found[answers.len() as int]) },
            )
            &&& answers.len() == found.len() ==> end.phase is Finished && pass_says(s, events) is Finished
            &&& !(end.phase is Finished) ==> end.report.removed.len() + end.report.left.len()
                == s.report.removed.len() + s.report.left.len() + answers.len()
        }),
    decreases answers.len(),
{
    let found = orphans(s.config.package_ids(), names);
    let listing = seq![EventView::Listed(Some(names))];
    let events = listing + answers;
    if answers.len() == 0 {
        assert(events =~= listing);
        assert(events.drop_last() =~= Seq::<EventView>::empty());
        assert(events.last() == EventView::Listed(Some(names)));
        assert(pass_run(s, events.drop_last()) == s);
        assert(pass_run(s, events) == pass_step(s, events.last()).0);
    } else {
        let earlier = answers.drop_last();
        every_orphan_is_deleted(s, names, earlier);
        assert(events.drop_last() =~= listing + earlier);
        assert(events.last() == answers.last());
        let before = pass_run(s, listing + earlier);
        pass_run_keeps_the_plan(s, listing + earlier);
        assert(before.phase == (PhaseView::Sweeping { orphans: found, next: earlier.len() as int }));
        assert(pass_run(s, events) == pass_step(before, answers.last()).0);
        let deleted = match answers.last() {
            EventView::Removed(deleted) => deleted,
            _ => false,
        };
        let noted = before.swept(found[earlier.len() as int], deleted);
        assert(pass_step(before, answers.last()) == noted.sweep(found, earlier.len() as int + 1));
    }
}

/// Whether `event` is what a settled node answers to the effect that the
/// pass `s` waits for: the version marker holds the fingerprint of the
/// extension, the directory of an extension that is to go is not there,
/// and the extensions directory, where it can be listed, holds nothing
/// that the desired state does not name.
pub open spec fn settled_answer(s: PassView, event: EventView) -> bool {
    match s.phase {
        PhaseView::Marker => {
            &&& event matches EventView::Marker(MarkerReadView::Content(text))
            &&& s.tasks[s.cursor] matches TaskView::Install { fingerprint: Some(fingerprint), .. }
            &&& !marker_is_stale(Some(text), fingerprint)
        },
        PhaseView::Removing(remover) => remover.stage is DirectoryProbe && event
            == EventView::Probed(false),
        PhaseView::Listing => event matches EventView::Listed(Some(names)) ==> orphans(
            s.config.package_ids(),
            names,
        ).len() == 0,
        PhaseView::Finished => true,
        _ => false,
    }
}

/// Whether the pass waits for the first answer of a task, for the
/// listing, or for nothing.
pub open spec fn between_tasks(s: PassView) -> bool {
    match s.phase {
        PhaseView::Marker => true,
        PhaseView::Removing(remover) => remover.stage is DirectoryProbe,
        PhaseView::Listing => true,
        PhaseView::Finished => true,
        _ => false,
    }
}

/// Whether a step changes nothing on the machine: it asks for an
/// observation, or the pass has ended.
pub open spec fn quiet(step: PassStepView) -> bool {
    match step {
        PassStepView::Perform(action) => action.is_observation(),
        PassStepView::Finished(_) => true,
    }
}

/// Idempotence, one step. On the answer of a settled node a pass does no
/// work: the task ends as up to date or as removed already, and the next
/// effect is an observation again.
pub proof fn settled_step_is_quiet(s: PassView, event: EventView)
    requires
        s.wf(),
        between_tasks(s),
        settled_answer(s, event),
    ensures
        quiet(pass_step(s, event).1),
        between_tasks(pass_step(s, event).0),
        s.phase is Marker ==> pass_step(s, event) == s.next_task(Ok(Applied::UpToDate)),
        s.phase is Removing ==> pass_step(s, event) == s.next_task(
            Ok(Applied::Removal(Removal::AlreadyAbsent)),
        ),
        s.phase is Listing ==> pass_step(s, event).1 is Finished,
        s.phase is Listing && event is Listed && event->Listed_0 is Some ==> pass_step(s, event).1
            == PassStepView::Finished(s.report),
{
}

/// Idempotence. A pass over a node that is settled, so one on which an
/// earlier pass over the same desired state has succeeded and nothing has
/// changed since, does no work: it fetches nothing, unpacks nothing, runs
/// no script, writes and deletes nothing. All it asks for is to read the
/// version markers, to look for the directories that are to go, and to list
/// the extensions directory.
pub proof fn pass_over_settled_node_does_no_work(s: PassView, events: Seq<EventView>)
    requires
        s.wf(),
        between_tasks(s),
        forall|k: int|
            0 <= k < events.len() ==> settled_answer(
                pass_run(s, #[trigger] events.take(k)),
                events[k],
            ),
    ensures
        between_tasks(pass_run(s, events)),
        forall|k: int|
            0 <= k < events.len() ==> quiet(#[trigger] pass_says(s, events.take(k + 1))) && !(
            pass_says(s, events.take(k + 1)) matches PassStepView::Perform(action)
                && action.is_work()),
        forall|k: int|
            s.report.outcomes.len() <= k < pass_run(s, events).report.outcomes.len() ==> {
                let result = (#[trigger] pass_run(s, events).report.outcomes[k]).result;
                result == Ok::<Applied, ExtensionError>(Applied::UpToDate) || result == Ok::<
                    Applied,
                    ExtensionError,
                >(Applied::Removal(Removal::AlreadyAbsent))
            },
        pass_run(s, events).report.outcomes.len() >= s.report.outcomes.len() || pass_run(
            s,
            events,
        ).phase is Finished,
    decreases events.len(),
{
    if events.len() > 0 {
        let earlier = events.drop_last();
        assert forall|k: int| 0 <= k < earlier.len() implies settled_answer(
            pass_run(s, #[trigger] earlier.take(k)),
            earlier[k],
        ) by {
            assert(earlier.take(k) =~= events.take(k));
        }
        pass_over_settled_node_does_no_work(s, earlier);
        pass_run_keeps_wf(s, earlier);
        let before = pass_run(s, earlier);
        assert(events.take(events.len() - 1) =~= earlier);
        assert(settled_answer(before, events.last()));
        settled_step_is_quiet(before, events.last());
        assert forall|k: int| 0 <= k < events.len() implies quiet(
            #[trigger] pass_says(s, events.take(k + 1)),
        ) && !(pass_says(s, events.take(k + 1)) matches PassStepView::Perform(action)
            && action.is_work()) by {
            if k < earlier.len() {
                assert(events.take(k + 1) =~= earlier.take(k + 1));
            } else {
                assert(events.take(k + 1) =~= events);
            }
        }
    }
}

} // verus!
