//! What a pass leaves behind on a node, and why a second pass over the
//! same desired state finds nothing to do.
//!
//! A node is taken for what bears on a pass: the version markers and the
//! package directories. An effect that succeeds changes the node as its
//! name says; scripts are taken not to touch markers or directories.

use crate::config::{package_ids, InstallrConfigView};
use crate::digest::marker_is_stale;
use crate::effect::{EventView, MarkerReadView};
use crate::install::{
    install_start, install_step, InstallPlanView, InstallStageView, InstallStepView,
};
use crate::laws::{
    finished_report_is_complete, install_rank, install_run, install_says, installation_advances,
    pass_over_settled_node_does_no_work, pass_run, pass_run_keeps_the_plan, pass_says,
    pass_step_keeps_wf, quiet, settled_answer,
};
use crate::model::ExtensionStateView;
use crate::reconcile::{
    computed_fingerprints_match, fingerprint_at, fingerprints_match, fingerprints_of,
    install_tasks, pass_start, pass_step, removal_tasks, tasks_for, PassStepView, PassView,
    PhaseView, TaskView,
};
use crate::text::{lower_hex_is_trimmed, trimmed};
use crate::uninstall::{orphans, removal_step, RemovalStageView};
use vstd::prelude::*;

verus! {

/// What of a machine bears on a pass.
pub ghost struct Node {
    /// What the version marker of a package holds, by package id.
    pub markers: Map<Seq<char>, Seq<char>>,
    /// The names of the directories below the extensions directory.
    pub directories: Set<Seq<char>>,
}

impl Node {
    /// What reading the version marker of a package gives.
    pub open spec fn marker(self, package_id: Seq<char>) -> MarkerReadView {
        if self.markers.contains_key(package_id) {
            MarkerReadView::Content(self.markers[package_id])
        } else {
            MarkerReadView::Absent
        }
    }

    /// The node with the directory of a package in place.
    pub open spec fn with_directory(self, package_id: Seq<char>) -> Node {
        Node { directories: self.directories.insert(package_id), ..self }
    }

    /// The node with the version marker of a package written.
    pub open spec fn with_marker(self, package_id: Seq<char>, contents: Seq<char>) -> Node {
        Node {
            markers: self.markers.insert(package_id, contents),
            directories: self.directories.insert(package_id),
        }
    }

    /// The node with the directory of a package deleted, marker included.
    pub open spec fn without(self, package_id: Seq<char>) -> Node {
        Node {
            markers: self.markers.remove(package_id),
            directories: self.directories.remove(package_id),
        }
    }
}

/// The package id of the extension that the task at `k` is about.
pub open spec fn task_package(s: PassView, k: int) -> Seq<char> {
    s.config.extensions[s.tasks[k].index()].package_id()
}

/// Whether `event` is what `node` answers to the effect that the pass `s`
/// waits for, as far as the node decides the answer: what a version marker
/// holds, whether a package directory exists, and which directories there
/// are.
pub open spec fn answers(node: Node, s: PassView, event: EventView) -> bool {
    match s.phase {
        PhaseView::Marker => event == EventView::Marker(node.marker(task_package(s, s.cursor))),
        PhaseView::Removing(remover) => remover.stage is DirectoryProbe ==> event
            == EventView::Probed(node.directories.contains(task_package(s, s.cursor))),
        PhaseView::Listing => event matches EventView::Listed(Some(names)) ==> forall|
            name: Seq<char>,
        | #[trigger] names.contains(name) <==> node.directories.contains(name),
        _ => true,
    }
}

/// The node after the effect that the pass `s` waits for has been answered
/// with `event`: unpacking puts the package directory in place, writing the
/// version marker sets it, and deleting a directory takes it away with its
/// marker. Nothing else changes markers or directories.
pub open spec fn node_after(node: Node, s: PassView, event: EventView) -> Node {
    match s.phase {
        PhaseView::Installing(installer) => match (installer.stage, event) {
            (InstallStageView::Unpack, EventView::Written(true)) => node.with_directory(
                task_package(s, s.cursor),
            ),
            (InstallStageView::VersionMarker, EventView::Written(true)) => node.with_marker(
                task_package(s, s.cursor),
                installer.plan.fingerprint,
            ),
            _ => node,
        },
        PhaseView::Removing(remover) => match (remover.stage, event) {
            (RemovalStageView::Deletion { .. }, EventView::Removed(true)) => node.without(
                task_package(s, s.cursor),
            ),
            _ => node,
        },
        PhaseView::Sweeping { orphans, next } => match event {
            EventView::Removed(true) => node.without(orphans[next]),
            _ => node,
        },
        _ => node,
    }
}

/// The node after a run of the pass `s` over `events`.
pub open spec fn node_run(node: Node, s: PassView, events: Seq<EventView>) -> Node
    decreases events.len(),
{
    if events.len() == 0 {
        node
    } else {
        node_after(
            node_run(node, s, events.drop_last()),
            pass_run(s, events.drop_last()),
            events.last(),
        )
    }
}

/// Whether each of `events` is what the node answers at its point of the
/// run, the node being changed by the effects that went before.
pub open spec fn answered_by(node: Node, s: PassView, events: Seq<EventView>) -> bool {
    forall|k: int|
        0 <= k < events.len() ==> answers(
            node_run(node, s, #[trigger] events.take(k)),
            pass_run(s, events.take(k)),
            events[k],
        )
}

/// The state in which a pass over `config` below `root` begins when it is
/// laid out with the fingerprints of its extensions.
pub open spec fn pass_begun(root: Seq<char>, config: InstallrConfigView) -> PassView {
    pass_start(root, config, fingerprints_of(config.extensions)).0
}

/// Whether the node has what the task at `k` is to bring about: the version
/// marker holds the fingerprint, or the directory is gone.
pub open spec fn task_is_settled(node: Node, s: PassView, k: int) -> bool {
    match s.tasks[k] {
        TaskView::Install { fingerprint, .. } => {
            &&& fingerprint matches Some(h)
            &&& node.markers.contains_key(task_package(s, k))
            &&& !marker_is_stale(Some(node.markers[task_package(s, k)]), h)
        },
        TaskView::Remove { .. } => !node.directories.contains(task_package(s, k)),
    }
}

/// Whether the node is settled for the pass: it has what every task is to
/// bring about, and no directory that the desired state does not name.
pub open spec fn settled(node: Node, s: PassView) -> bool {
    &&& forall|k: int| 0 <= k < s.tasks.len() ==> #[trigger] task_is_settled(node, s, k)
    &&& forall|name: Seq<char>| #[trigger]
        node.directories.contains(name) ==> s.config.package_ids().contains(name)
}

/// Whether the pass works on a plan in which every extension has a package
/// id of its own, no two tasks are about the same extension, and every
/// fingerprint is free of whitespace at its ends.
pub open spec fn plan_is_sound(s: PassView) -> bool {
    &&& s.config.package_ids().no_duplicates()
    &&& forall|j: int, k: int|
        0 <= j < s.tasks.len() && 0 <= k < s.tasks.len() && j != k ==> (#[trigger] s.tasks[j]).index()
            != (#[trigger] s.tasks[k]).index()
    &&& forall|k: int|
        0 <= k < s.tasks.len() ==> ((#[trigger] s.tasks[k]) matches TaskView::Install {
            fingerprint: Some(h),
            ..
        } ==> trimmed(h) == h)
}

/// Whether every directory of the node is named by the desired state, is
/// an orphan that is still to be deleted, or could not be deleted.
pub open spec fn sweep_covers(node: Node, s: PassView, found: Seq<Seq<char>>, next: int) -> bool {
    &&& forall|j: int|
        0 <= j < found.len() ==> !s.config.package_ids().contains(#[trigger] found[j])
    &&& forall|name: Seq<char>| #[trigger]
        node.directories.contains(name) ==> {
            ||| s.config.package_ids().contains(name)
            ||| exists|j: int| next <= j < found.len() && found[j] == name
            ||| s.report.left.contains(name)
        }
}

/// What holds of a pass and a node in the middle of a run: every task that
/// ended well has left the node with what it was to bring about.
pub open spec fn progress_is_kept(node: Node, s: PassView) -> bool {
    &&& s.wf()
    &&& !(s.phase is Finished)
    &&& forall|k: int|
        0 <= k < s.cursor && (#[trigger] s.report.outcomes[k]).result is Ok ==> task_is_settled(
            node,
            s,
            k,
        )
    &&& (s.phase matches PhaseView::Installing(installer) ==> s.tasks[s.cursor] matches TaskView::Install {
        fingerprint: Some(h),
        ..
    } && installer.plan.fingerprint == h)
    &&& (s.phase matches PhaseView::Sweeping { orphans: found, next } ==> sweep_covers(
        node,
        s,
        found,
        next,
    ))
}

/// Two tasks of a sound plan are about packages of different ids.
pub proof fn tasks_are_about_different_packages(s: PassView, j: int, k: int)
    requires
        s.wf(),
        plan_is_sound(s),
        0 <= j < s.tasks.len(),
        0 <= k < s.tasks.len(),
        j != k,
    ensures
        task_package(s, j) != task_package(s, k),
        s.config.package_ids().contains(task_package(s, k)),
{
    let ids = s.config.package_ids();
    let a = s.tasks[j].index();
    let b = s.tasks[k].index();
    assert(ids[a] == task_package(s, j));
    assert(ids[b] == task_package(s, k));
}

/// The package of a task is named by the desired state.
pub proof fn task_package_is_desired(s: PassView, k: int)
    requires
        s.wf(),
        0 <= k < s.tasks.len(),
    ensures
        s.config.package_ids().contains(task_package(s, k)),
{
    let ids = s.config.package_ids();
    assert(ids[s.tasks[k].index()] == task_package(s, k));
}

/// A step that does not end the pass keeps what the tasks before it have
/// brought about.
pub proof fn step_keeps_progress(node: Node, s: PassView, event: EventView)
    requires
        progress_is_kept(node, s),
        plan_is_sound(s),
        answers(node, s, event),
        pass_step(s, event).1 is Perform,
    ensures
        progress_is_kept(node_after(node, s, event), pass_step(s, event).0),
{
    let after = pass_step(s, event).0;
    let node2 = node_after(node, s, event);
    pass_step_keeps_wf(s, event);
    assert(after.tasks == s.tasks);
    assert(after.config == s.config);
    match s.phase {
        PhaseView::Marker => {
            assert(node2 == node);
            assert forall|k: int|
                0 <= k < after.cursor && (#[trigger] after.report.outcomes[k]).result is Ok implies task_is_settled(
                node2,
                after,
                k,
            ) by {
                if k < s.cursor {
                    assert(after.report.outcomes[k] == s.report.outcomes[k]);
                    assert(task_is_settled(node, s, k));
                }
            }
        },
        PhaseView::Installing(installer) => {
            let c = s.cursor;
            assert forall|k: int|
                0 <= k < after.cursor && (#[trigger] after.report.outcomes[k]).result is Ok implies task_is_settled(
                node2,
                after,
                k,
            ) by {
                if k < c {
                    assert(after.report.outcomes[k] == s.report.outcomes[k]);
                    assert(task_is_settled(node, s, k));
                    tasks_are_about_different_packages(s, k, c);
                } else {
                    assert(k == c);
                    assert(install_step(installer.plan, installer.stage, event).1 is Finished);
                }
            }
        },
        PhaseView::Removing(remover) => {
            let c = s.cursor;
            assert forall|k: int|
                0 <= k < after.cursor && (#[trigger] after.report.outcomes[k]).result is Ok implies task_is_settled(
                node2,
                after,
                k,
            ) by {
                if k < c {
                    assert(after.report.outcomes[k] == s.report.outcomes[k]);
                    assert(task_is_settled(node, s, k));
                    tasks_are_about_different_packages(s, k, c);
                } else {
                    assert(k == c);
                    assert(removal_step(remover.plan, remover.stage, event).1 is Finished);
                }
            }
        },
        PhaseView::Listing => {
            assert(node2 == node);
            let names = event->Listed_0->Some_0;
            let found = orphans(s.config.package_ids(), names);
            let unnamed = |name: Seq<char>| !s.config.package_ids().contains(name);
            assert forall|j: int| 0 <= j < found.len() implies !s.config.package_ids().contains(
                #[trigger] found[j],
            ) by {
                names.lemma_filter_pred(unnamed, j);
            }
            assert forall|name: Seq<char>| #[trigger]
                node2.directories.contains(name) implies s.config.package_ids().contains(name) || (
            exists|j: int| 0 <= j < found.len() && found[j] == name) || after.report.left.contains(
                name,
            ) by {
                if !s.config.package_ids().contains(name) {
                    assert(names.contains(name));
                    let i = choose|i: int| 0 <= i < names.len() && names[i] == name;
                    names.lemma_filter_contains(unnamed, i);
                    let j = choose|j: int| 0 <= j < found.len() && found[j] == name;
                    assert(0 <= j < found.len() && found[j] == name);
                }
            }
            assert forall|k: int|
                0 <= k < after.cursor && (#[trigger] after.report.outcomes[k]).result is Ok implies task_is_settled(
                node2,
                after,
                k,
            ) by {
                assert(after.report.outcomes[k] == s.report.outcomes[k]);
                assert(task_is_settled(node, s, k));
            }
        },
        PhaseView::Sweeping { orphans: found, next } => {
            let gone = found[next];
            assert forall|k: int|
                0 <= k < after.cursor && (#[trigger] after.report.outcomes[k]).result is Ok implies task_is_settled(
                node2,
                after,
                k,
            ) by {
                assert(after.report.outcomes[k] == s.report.outcomes[k]);
                assert(task_is_settled(node, s, k));
                task_package_is_desired(s, k);
            }
            assert forall|name: Seq<char>| #[trigger]
                node2.directories.contains(name) implies s.config.package_ids().contains(name) || (
            exists|j: int| next + 1 <= j < found.len() && found[j] == name)
                || after.report.left.contains(name) by {
                assert(node.directories.contains(name));
                if !s.config.package_ids().contains(name) && !s.report.left.contains(name) {
                    let j = choose|j: int| next <= j < found.len() && found[j] == name;
                    if j == next {
                        assert(!(event matches EventView::Removed(true)));
                        assert(after.report.left == s.report.left.push(gone));
                        assert(after.report.left.last() == gone);
                    } else {
                        assert(next + 1 <= j < found.len() && found[j] == name);
                    }
                } else if s.report.left.contains(name) {
                    let i = choose|i: int| 0 <= i < s.report.left.len() && s.report.left[i] == name;
                    assert(after.report.left[i] == name);
                }
            }
        },
        PhaseView::Finished => {},
    }
}

/// The step that ends a pass in which nothing failed leaves the node
/// settled.
pub proof fn last_step_settles(node: Node, s: PassView, event: EventView)
    requires
        progress_is_kept(node, s),
        plan_is_sound(s),
        answers(node, s, event),
        pass_step(s, event).1 matches PassStepView::Finished(report) && !report.listing_failed
            && report.left.len() == 0 && forall|k: int|
            0 <= k < report.outcomes.len() ==> (#[trigger] report.outcomes[k]).result is Ok,
    ensures
        settled(node_after(node, s, event), s),
{
    let node2 = node_after(node, s, event);
    let report = pass_step(s, event).1->Finished_0;
    finished_report_is_complete(s, event);
    match s.phase {
        PhaseView::Listing => {
            assert(node2 == node);
            let names = event->Listed_0->Some_0;
            let found = orphans(s.config.package_ids(), names);
            let unnamed = |name: Seq<char>| !s.config.package_ids().contains(name);
            assert(found.len() == 0);
            assert forall|name: Seq<char>| #[trigger]
                node2.directories.contains(name) implies s.config.package_ids().contains(name) by {
                if !s.config.package_ids().contains(name) {
                    assert(names.contains(name));
                    let i = choose|i: int| 0 <= i < names.len() && names[i] == name;
                    names.lemma_filter_contains(unnamed, i);
                    assert(found.contains(name));
                }
            }
            assert forall|k: int| 0 <= k < s.tasks.len() implies #[trigger] task_is_settled(
                node2,
                s,
                k,
            ) by {
                assert(report.outcomes[k].result is Ok);
            }
        },
        PhaseView::Sweeping { orphans: found, next } => {
            assert(next + 1 == found.len());
            assert(event == EventView::Removed(true)) by {
                if !(event matches EventView::Removed(true)) {
                    assert(report.left == s.report.left.push(found[next]));
                }
            }
            assert(report.left == s.report.left);
            assert forall|name: Seq<char>| #[trigger]
                node2.directories.contains(name) implies s.config.package_ids().contains(name) by {
                assert(node.directories.contains(name));
                if !s.config.package_ids().contains(name) {
                    if s.report.left.contains(name) {
                    } else {
                        let j = choose|j: int| next <= j < found.len() && found[j] == name;
                        assert(j == next);
                    }
                }
            }
            assert forall|k: int| 0 <= k < s.tasks.len() implies #[trigger] task_is_settled(
                node2,
                s,
                k,
            ) by {
                assert(report.outcomes[k].result is Ok);
                assert(task_is_settled(node, s, k));
                task_package_is_desired(s, k);
            }
        },
        _ => {},
    }
}

/// Throughout a run that the node answers, every task that ended well has
/// left the node with what it was to bring about.
pub proof fn run_keeps_progress(node: Node, s: PassView, events: Seq<EventView>)
    requires
        progress_is_kept(node, s),
        plan_is_sound(s),
        answered_by(node, s, events),
        !(pass_run(s, events).phase is Finished),
    ensures
        progress_is_kept(node_run(node, s, events), pass_run(s, events)),
        plan_is_sound(pass_run(s, events)),
    decreases events.len(),
{
    pass_run_keeps_the_plan(s, events);
    if events.len() > 0 {
        let earlier = events.drop_last();
        assert forall|k: int| 0 <= k < earlier.len() implies answers(
            node_run(node, s, #[trigger] earlier.take(k)),
            pass_run(s, earlier.take(k)),
            earlier[k],
        ) by {
            assert(earlier.take(k) =~= events.take(k));
        }
        let before = pass_run(s, earlier);
        assert(!(before.phase is Finished));
        run_keeps_progress(node, s, earlier);
        assert(events.take(events.len() - 1) =~= earlier);
        assert(answers(node_run(node, s, earlier), before, events.last()));
        step_keeps_progress(node_run(node, s, earlier), before, events.last());
    }
}

/// The tasks that are laid out for a desired state are about different
/// extensions.
pub proof fn tasks_are_about_different_extensions(
    extensions: Seq<ExtensionStateView>,
    hashed: Seq<Option<Seq<char>>>,
)
    ensures
        forall|k: int|
            0 <= k < install_tasks(extensions, hashed).len() ==> {
                let task = #[trigger] install_tasks(extensions, hashed)[k];
                &&& task is Install
                &&& 0 <= task.index() < extensions.len()
                &&& extensions[task.index()].is_active()
                &&& task->Install_fingerprint == fingerprint_at(hashed, task.index())
            },
        forall|k: int|
            0 <= k < removal_tasks(extensions).len() ==> {
                let task = #[trigger] removal_tasks(extensions)[k];
                &&& task is Remove
                &&& 0 <= task.index() < extensions.len()
                &&& extensions[task.index()].is_flagged_for_removal()
            },
        forall|j: int, k: int|
            0 <= j < k < install_tasks(extensions, hashed).len() ==> (#[trigger] install_tasks(
                extensions,
                hashed,
            )[j]).index() < (#[trigger] install_tasks(extensions, hashed)[k]).index(),
        forall|j: int, k: int|
            0 <= j < k < removal_tasks(extensions).len() ==> (#[trigger] removal_tasks(
                extensions,
            )[j]).index() < (#[trigger] removal_tasks(extensions)[k]).index(),
    decreases extensions.len(),
{
    if extensions.len() > 0 {
        let shorter = extensions.drop_last();
        tasks_are_about_different_extensions(shorter, hashed);
        let installs = install_tasks(extensions, hashed);
        let earlier_installs = install_tasks(shorter, hashed);
        assert forall|k: int| 0 <= k < installs.len() implies {
            let task = #[trigger] installs[k];
            &&& task is Install
            &&& 0 <= task.index() < extensions.len()
            &&& extensions[task.index()].is_active()
            &&& task->Install_fingerprint == fingerprint_at(hashed, task.index())
            &&& (k < earlier_installs.len() ==> task.index() < shorter.len())
        } by {
            if k < earlier_installs.len() {
                assert(installs[k] == earlier_installs[k]);
                assert(shorter[earlier_installs[k].index()] == extensions[earlier_installs[k].index()]);
            }
        }
        let removals = removal_tasks(extensions);
        let earlier_removals = removal_tasks(shorter);
        assert forall|k: int| 0 <= k < removals.len() implies {
            let task = #[trigger] removals[k];
            &&& task is Remove
            &&& 0 <= task.index() < extensions.len()
            &&& extensions[task.index()].is_flagged_for_removal()
            &&& (k < earlier_removals.len() ==> task.index() < shorter.len())
        } by {
            if k < earlier_removals.len() {
                assert(removals[k] == earlier_removals[k]);
                assert(shorter[earlier_removals[k].index()] == extensions[earlier_removals[k].index()]);
            }
        }
        assert forall|j: int, k: int| 0 <= j < k < installs.len() implies (#[trigger] installs[j]).index()
            < (#[trigger] installs[k]).index() by {
            if k < earlier_installs.len() {
                assert(installs[j] == earlier_installs[j]);
                assert(installs[k] == earlier_installs[k]);
            } else {
                assert(installs[j] == earlier_installs[j]);
            }
        }
        assert forall|j: int, k: int| 0 <= j < k < removals.len() implies (#[trigger] removals[j]).index()
            < (#[trigger] removals[k]).index() by {
            if k < earlier_removals.len() {
                assert(removals[j] == earlier_removals[j]);
                assert(removals[k] == earlier_removals[k]);
            } else {
                assert(removals[j] == earlier_removals[j]);
            }
        }
    }
}

/// A pass that begins over a desired state in which every extension has a
/// package id of its own, with the fingerprints of its extensions, works
/// on a sound plan and has kept what there is to keep: nothing yet.
pub proof fn fresh_pass_is_sound(
    node: Node,
    root: Seq<char>,
    config: InstallrConfigView,
    hashed: Seq<Option<Seq<char>>>,
)
    requires
        config.extensions.len() <= usize::MAX,
        config.package_ids().no_duplicates(),
        fingerprints_match(config.extensions, hashed),
    ensures
        plan_is_sound(pass_start(root, config, hashed).0),
        progress_is_kept(node, pass_start(root, config, hashed).0),
        pass_start(root, config, hashed).0.cursor == 0,
        pass_start(root, config, hashed).0.config == config,
        pass_start(root, config, hashed).0.tasks == tasks_for(config.extensions, hashed),
        crate::laws::between_tasks(pass_start(root, config, hashed).0),
{
    let s = pass_start(root, config, hashed).0;
    let installs = install_tasks(config.extensions, hashed);
    let removals = removal_tasks(config.extensions);
    tasks_are_about_different_extensions(config.extensions, hashed);
    crate::reconcile::tasks_are_about_extensions(config.extensions, hashed);
    assert forall|j: int, k: int|
        0 <= j < s.tasks.len() && 0 <= k < s.tasks.len() && j != k implies (#[trigger] s.tasks[j]).index()
        != (#[trigger] s.tasks[k]).index() by {
        let a = s.tasks[j];
        let b = s.tasks[k];
        if j < installs.len() {
            assert(a == installs[j]);
        } else {
            assert(a == removals[j - installs.len()]);
        }
        if k < installs.len() {
            assert(b == installs[k]);
        } else {
            assert(b == removals[k - installs.len()]);
        }
    }
    assert forall|k: int| 0 <= k < s.tasks.len() implies ((#[trigger] s.tasks[k]) matches TaskView::Install {
        fingerprint: Some(h),
        ..
    } ==> trimmed(h) == h) by {
        if k < installs.len() {
            assert(s.tasks[k] == installs[k]);
            let index = installs[k].index();
            if let Some(h) = hashed[index] {
                assert(h == config.extensions[index].fingerprint());
                lower_hex_is_trimmed(
                    crate::digest::sha256(
                        vstd::utf8::encode_utf8(config.extensions[index].canonical_form()),
                    ),
                );
            }
        } else {
            assert(s.tasks[k] == removals[k - installs.len()]);
        }
    }
}

/// A node that is settled answers like one: what it says of its markers
/// and directories is what a pass needs in order to do no work, and the
/// pass leaves it as it is.
pub proof fn settled_node_gives_settled_answers(node: Node, s: PassView, event: EventView)
    requires
        s.wf(),
        plan_is_sound(s),
        crate::laws::between_tasks(s),
        settled(node, s),
        answers(node, s, event),
    ensures
        settled_answer(s, event),
        node_after(node, s, event) == node,
{
    match s.phase {
        PhaseView::Marker => {
            assert(task_is_settled(node, s, s.cursor));
        },
        PhaseView::Removing(remover) => {
            assert(task_is_settled(node, s, s.cursor));
        },
        PhaseView::Listing => {
            if let EventView::Listed(Some(names)) = event {
                let unnamed = |name: Seq<char>| !s.config.package_ids().contains(name);
                let found = orphans(s.config.package_ids(), names);
                if found.len() > 0 {
                    names.lemma_filter_pred(unnamed, 0);
                    assert(found.contains(found[0]));
                    names.lemma_filter_contains_rev(unnamed, found[0]);
                    assert(names.contains(found[0]));
                    assert(node.directories.contains(found[0]));
                }
            }
        },
        _ => {},
    }
}

/// Idempotence, the second pass. A pass over a settled node, answered by
/// the node, does no work and leaves the node as it is.
pub proof fn pass_over_settled_node_changes_nothing(node: Node, s: PassView, events: Seq<EventView>)
    requires
        s.wf(),
        plan_is_sound(s),
        crate::laws::between_tasks(s),
        settled(node, s),
        answered_by(node, s, events),
    ensures
        node_run(node, s, events) == node,
        forall|k: int|
            0 <= k < events.len() ==> settled_answer(
                pass_run(s, #[trigger] events.take(k)),
                events[k],
            ),
        forall|k: int|
            0 <= k < events.len() ==> quiet(#[trigger] pass_says(s, events.take(k + 1))) && !(
            pass_says(s, events.take(k + 1)) matches PassStepView::Perform(action)
                && action.is_work()),
    decreases events.len(),
{
    if events.len() > 0 {
        let earlier = events.drop_last();
        assert forall|k: int| 0 <= k < earlier.len() implies answers(
            node_run(node, s, #[trigger] earlier.take(k)),
            pass_run(s, earlier.take(k)),
            earlier[k],
        ) by {
            assert(earlier.take(k) =~= events.take(k));
        }
        pass_over_settled_node_changes_nothing(node, s, earlier);
        assert forall|k: int| 0 <= k < earlier.len() implies settled_answer(
            pass_run(s, #[trigger] earlier.take(k)),
            earlier[k],
        ) by {
            assert(earlier.take(k) =~= events.take(k));
        }
        pass_over_settled_node_does_no_work(s, earlier);
        crate::laws::pass_run_keeps_wf(s, earlier);
        pass_run_keeps_the_plan(s, earlier);
        let before = pass_run(s, earlier);
        assert(events.take(events.len() - 1) =~= earlier);
        assert(answers(node, before, events.last()));
        assert forall|k: int| 0 <= k < before.tasks.len() implies #[trigger] task_is_settled(
            node,
            before,
            k,
        ) by {
            assert(task_is_settled(node, s, k));
        }
        assert(settled(node, before));
        assert(plan_is_sound(before));
        settled_node_gives_settled_answers(node, before, events.last());
        assert forall|k: int| 0 <= k < events.len() implies settled_answer(
            pass_run(s, #[trigger] events.take(k)),
            events[k],
        ) by {
            if k < earlier.len() {
                assert(earlier.take(k) =~= events.take(k));
            }
        }
        pass_over_settled_node_does_no_work(s, events);
    }
}

/// Idempotence, the first pass. A pass over a desired state in which every
/// extension has a package id of its own, answered by the node from its
/// first event to the one on which it ends, leaves the node settled if
/// nothing failed: every task ended well, the extensions directory could
/// be listed, and every orphan could be deleted.
pub proof fn pass_without_failure_settles_the_node(
    node: Node,
    root: Seq<char>,
    config: InstallrConfigView,
    hashed: Seq<Option<Seq<char>>>,
    events: Seq<EventView>,
)
    requires
        config.extensions.len() <= usize::MAX,
        config.package_ids().no_duplicates(),
        fingerprints_match(config.extensions, hashed),
        events.len() > 0,
        answered_by(node, pass_start(root, config, hashed).0, events),
        !(pass_run(pass_start(root, config, hashed).0, events.drop_last()).phase is Finished),
        pass_says(pass_start(root, config, hashed).0, events) matches PassStepView::Finished(report)
            && !report.listing_failed && report.left.len() == 0 && forall|k: int|
            0 <= k < report.outcomes.len() ==> (#[trigger] report.outcomes[k]).result is Ok,
    ensures
        settled(
            node_run(node, pass_start(root, config, hashed).0, events),
            pass_start(root, config, hashed).0,
        ),
{
    let s = pass_start(root, config, hashed).0;
    fresh_pass_is_sound(node, root, config, hashed);
    let earlier = events.drop_last();
    assert forall|k: int| 0 <= k < earlier.len() implies answers(
        node_run(node, s, #[trigger] earlier.take(k)),
        pass_run(s, earlier.take(k)),
        earlier[k],
    ) by {
        assert(earlier.take(k) =~= events.take(k));
    }
    run_keeps_progress(node, s, earlier);
    let before = pass_run(s, earlier);
    let node_before = node_run(node, s, earlier);
    assert(events.take(events.len() - 1) =~= earlier);
    assert(answers(node_before, before, events.last()));
    last_step_settles(node_before, before, events.last());
    pass_run_keeps_the_plan(s, earlier);
    let end = node_run(node, s, events);
    assert forall|k: int| 0 <= k < s.tasks.len() implies #[trigger] task_is_settled(end, s, k) by {
        assert(task_is_settled(end, before, k));
    }
}

/// Idempotence. Two passes in a row over the same desired state, in which
/// every extension has a package id of its own, on a node that nothing
/// else changes: if nothing failed in the first, the second does no work.
/// It fetches nothing, unpacks nothing and runs no script; all it asks for
/// is to read the version markers, to look for the directories of the
/// extensions that are to go, and to list the extensions directory.
pub proof fn second_pass_does_no_work(
    node: Node,
    root: Seq<char>,
    config: InstallrConfigView,
    hashed: Seq<Option<Seq<char>>>,
    first: Seq<EventView>,
    second: Seq<EventView>,
)
    requires
        config.extensions.len() <= usize::MAX,
        config.package_ids().no_duplicates(),
        fingerprints_match(config.extensions, hashed),
        first.len() > 0,
        answered_by(node, pass_start(root, config, hashed).0, first),
        !(pass_run(pass_start(root, config, hashed).0, first.drop_last()).phase is Finished),
        pass_says(pass_start(root, config, hashed).0, first) matches PassStepView::Finished(report)
            && !report.listing_failed && report.left.len() == 0 && forall|k: int|
            0 <= k < report.outcomes.len() ==> (#[trigger] report.outcomes[k]).result is Ok,
        answered_by(
            node_run(node, pass_start(root, config, hashed).0, first),
            pass_start(root, config, hashed).0,
            second,
        ),
    ensures
        forall|k: int|
            0 <= k < second.len() ==> quiet(
                #[trigger] pass_says(pass_start(root, config, hashed).0, second.take(k + 1)),
            ) && !(pass_says(
                pass_start(root, config, hashed).0,
                second.take(k + 1),
            ) matches PassStepView::Perform(action) && action.is_work()),
        node_run(
            node_run(node, pass_start(root, config, hashed).0, first),
            pass_start(root, config, hashed).0,
            second,
        ) == node_run(node, pass_start(root, config, hashed).0, first),
{
    let s = pass_start(root, config, hashed).0;
    let settled_node = node_run(node, s, first);
    pass_without_failure_settles_the_node(node, root, config, hashed, first);
    fresh_pass_is_sound(settled_node, root, config, hashed);
    pass_over_settled_node_changes_nothing(settled_node, s, second);
}

/// Idempotence, for the passes that `reconcile_extensions` begins. Two
/// calls over the same desired state begin in the same state, laid out
/// with the fingerprints of the extensions; if nothing failed in the
/// first, the second does no work.
pub proof fn repeated_pass_does_no_work(
    node: Node,
    root: Seq<char>,
    config: InstallrConfigView,
    first: Seq<EventView>,
    second: Seq<EventView>,
)
    requires
        config.extensions.len() <= usize::MAX,
        config.package_ids().no_duplicates(),
        first.len() > 0,
        answered_by(node, pass_begun(root, config), first),
        !(pass_run(pass_begun(root, config), first.drop_last()).phase is Finished),
        pass_says(pass_begun(root, config), first) matches PassStepView::Finished(report)
            && !report.listing_failed && report.left.len() == 0 && forall|k: int|
            0 <= k < report.outcomes.len() ==> (#[trigger] report.outcomes[k]).result is Ok,
        answered_by(node_run(node, pass_begun(root, config), first), pass_begun(root, config), second),
    ensures
        forall|k: int|
            0 <= k < second.len() ==> quiet(
                #[trigger] pass_says(pass_begun(root, config), second.take(k + 1)),
            ) && !(pass_says(
                pass_begun(root, config),
                second.take(k + 1),
            ) matches PassStepView::Perform(action) && action.is_work()),
        node_run(node_run(node, pass_begun(root, config), first), pass_begun(root, config), second)
            == node_run(node, pass_begun(root, config), first),
{
    computed_fingerprints_match(config.extensions);
    second_pass_does_no_work(
        node,
        root,
        config,
        fingerprints_of(config.extensions),
        first,
        second,
    );
}

/// What is known to be on a machine of the files that keep an installation
/// from repeating itself: the archives in the cache and the markers of the
/// scripts that have run, each by its path. What is known to be there stays
/// there: nothing is taken to delete it.
pub ghost struct Known {
    pub cached: Set<Seq<char>>,
    pub ran: Set<Seq<char>>,
}

/// Whether `event` can answer the effect that an installation waits for in
/// `stage`, given what is known: a probe for a file that is known to be
/// there finds it.
pub open spec fn agrees(known: Known, plan: InstallPlanView, stage: InstallStageView, event: EventView) -> bool {
    match stage {
        InstallStageView::CacheProbe => known.cached.contains(plan.cache_path) ==> event
            == EventView::Probed(true),
        InstallStageView::RanProbe => known.ran.contains(plan.ran_marker) ==> event
            == EventView::Probed(true),
        _ => true,
    }
}

/// What is known after the effect that an installation waits for in
/// `stage` has been answered with `event`: a file that a probe found, or
/// that was written, is known to be there.
pub open spec fn learned(known: Known, plan: InstallPlanView, stage: InstallStageView, event: EventView) -> Known {
    match (stage, event) {
        (InstallStageView::CacheProbe, EventView::Probed(true)) => Known {
            cached: known.cached.insert(plan.cache_path),
            ..known
        },
        (InstallStageView::Store, EventView::Written(true)) => Known {
            cached: known.cached.insert(plan.cache_path),
            ..known
        },
        (InstallStageView::RanProbe, EventView::Probed(true)) => Known {
            ran: known.ran.insert(plan.ran_marker),
            ..known
        },
        (InstallStageView::RanMarker { .. }, EventView::Written(true)) => Known {
            ran: known.ran.insert(plan.ran_marker),
            ..known
        },
        _ => known,
    }
}

/// What is known after an installation has run from its start over
/// `events`.
pub open spec fn known_after(known: Known, plan: InstallPlanView, events: Seq<EventView>) -> Known
    decreases events.len(),
{
    if events.len() == 0 {
        known
    } else {
        learned(
            known_after(known, plan, events.drop_last()),
            plan,
            install_run(plan, install_start(plan).0, events.drop_last()),
            events.last(),
        )
    }
}

/// Whether each of `events` can answer the effect that the installation
/// waits for at its point of the run, given what is known by then.
pub open spec fn installation_agrees(known: Known, plan: InstallPlanView, events: Seq<EventView>) -> bool {
    forall|k: int|
        0 <= k < events.len() ==> agrees(
            known_after(known, plan, #[trigger] events.take(k)),
            plan,
            install_run(plan, install_start(plan).0, events.take(k)),
            events[k],
        )
}

/// Whether the step at `k` of an installation that runs from its start
/// over `events` asks for the install script to be run.
pub open spec fn runs_script_at(plan: InstallPlanView, events: Seq<EventView>, k: int) -> bool {
    install_says(plan, install_start(plan).0, events.take(k + 1)) matches InstallStepView::Perform(
        action,
    ) && (action is RunScript)
}

/// Whether the step at `k` of an installation that runs from its start
/// over `events` asks for a download or writes into the cache.
pub open spec fn fetches_at(plan: InstallPlanView, events: Seq<EventView>, k: int) -> bool {
    install_says(plan, install_start(plan).0, events.take(k + 1)) matches InstallStepView::Perform(
        action,
    ) && (action is Download || action is StoreArtifact)
}

/// What is known is never forgotten.
pub proof fn knowledge_grows(known: Known, plan: InstallPlanView, events: Seq<EventView>)
    ensures
        known.cached.subset_of(known_after(known, plan, events).cached),
        known.ran.subset_of(known_after(known, plan, events).ran),
    decreases events.len(),
{
    if events.len() > 0 {
        knowledge_grows(known, plan, events.drop_last());
    }
}

/// What an installation has come to know by the time it is past a stage:
/// past the fetch, the archive is in the cache; and at the point of
/// recording the fingerprint, the marker of the script's run is there
/// unless no script was run.
pub proof fn installation_learns(known: Known, plan: InstallPlanView, events: Seq<EventView>)
    ensures
        ({
            let stage = install_run(plan, install_start(plan).0, events);
            let now = known_after(known, plan, events);
            &&& 3 <= install_rank(stage) <= 10 ==> now.cached.contains(plan.cache_path)
            &&& install_rank(stage) <= 7 ==> forall|k: int|
                0 <= k < events.len() ==> !runs_script_at(plan, events, k) || k == events.len() - 1
            &&& install_rank(stage) <= 6 ==> forall|k: int|
                0 <= k < events.len() ==> !runs_script_at(plan, events, k)
            &&& install_rank(stage) == 10 ==> now.ran.contains(plan.ran_marker) || forall|k: int|
                0 <= k < events.len() ==> !runs_script_at(plan, events, k)
        }),
    decreases events.len(),
{
    let start = install_start(plan).0;
    if events.len() > 0 {
        let earlier = events.drop_last();
        installation_learns(known, plan, earlier);
        let before = install_run(plan, start, earlier);
        installation_advances(plan, before, events.last());
        let stage = install_run(plan, start, events);
        assert(events.take(events.len() as int) =~= events);
        assert forall|k: int| 0 <= k < earlier.len() implies runs_script_at(plan, events, k)
            == runs_script_at(plan, earlier, k) by {
            assert(events.take(k + 1) =~= earlier.take(k + 1));
        }
        if install_rank(stage) <= 6 {
            assert(!runs_script_at(plan, events, events.len() - 1));
        }
    }
}

/// Install-once, the script. An installation that knows the marker of an
/// earlier run to be there runs no script, whatever else happens.
pub proof fn known_marker_keeps_the_script_from_running(
    known: Known,
    plan: InstallPlanView,
    events: Seq<EventView>,
    k: int,
)
    requires
        known.ran.contains(plan.ran_marker),
        installation_agrees(known, plan, events),
        0 <= k < events.len(),
    ensures
        !runs_script_at(plan, events, k),
{
    let start = install_start(plan).0;
    let upto = events.take(k + 1);
    assert(upto.drop_last() =~= events.take(k));
    assert(upto.last() == events[k]);
    knowledge_grows(known, plan, events.take(k));
    let stage = install_run(plan, start, events.take(k));
    if runs_script_at(plan, events, k) {
        crate::laws::script_runs_only_without_ran_marker(plan, stage, events[k]);
    }
}

/// Install-once, the download. An installation that knows the archive to
/// be in the cache downloads nothing and writes nothing into the cache,
/// whatever else happens.
pub proof fn known_archive_keeps_the_download_away(
    known: Known,
    plan: InstallPlanView,
    events: Seq<EventView>,
    k: int,
)
    requires
        known.cached.contains(plan.cache_path),
        installation_agrees(known, plan, events),
        0 <= k < events.len(),
    ensures
        !fetches_at(plan, events, k),
{
    let start = install_start(plan).0;
    let upto = events.take(k + 1);
    assert(events.take(0) =~= Seq::<EventView>::empty());
    assert(events[0] == EventView::Probed(true));
    assert(upto[0] == events[0]);
    crate::laws::cached_package_is_not_fetched_again(plan, upto);
}

/// Install-once. After an installation that has succeeded, a later
/// installation of the same version of the package, on a machine from
/// which nothing was deleted in between, downloads nothing and writes
/// nothing into the cache; and if the first has run the install script, the
/// later one does not run it again.
pub proof fn later_installation_repeats_nothing(
    known: Known,
    plan: InstallPlanView,
    later_plan: InstallPlanView,
    first: Seq<EventView>,
    later: Seq<EventView>,
    j: int,
    k: int,
)
    requires
        later_plan.cache_path == plan.cache_path,
        later_plan.ran_marker == plan.ran_marker,
        first.len() > 0,
        installation_agrees(known, plan, first),
        install_says(plan, install_start(plan).0, first) == InstallStepView::Finished(Ok(())),
        installation_agrees(known_after(known, plan, first), later_plan, later),
        0 <= j < first.len(),
        0 <= k < later.len(),
    ensures
        !fetches_at(later_plan, later, k),
        runs_script_at(plan, first, j) ==> !runs_script_at(later_plan, later, k),
{
    let start = install_start(plan).0;
    let earlier = first.drop_last();
    let before = install_run(plan, start, earlier);
    crate::laws::success_records_the_fingerprint(plan, before, first.last());
    installation_learns(known, plan, earlier);
    let learnt = known_after(known, plan, earlier);
    let end = known_after(known, plan, first);
    assert(end == learned(learnt, plan, before, first.last()));
    assert(end == learnt);
    known_archive_keeps_the_download_away(end, later_plan, later, k);
    if runs_script_at(plan, first, j) {
        if j < earlier.len() {
            assert(first.take(j + 1) =~= earlier.take(j + 1));
            assert(runs_script_at(plan, earlier, j));
        } else {
            assert(first.take(j + 1) =~= first);
        }
        assert(end.ran.contains(plan.ran_marker));
        known_marker_keeps_the_script_from_running(end, later_plan, later, k);
    }
}

/// Install-once, whatever the exit code. Once an installation has written
/// the marker of its script's run, no later installation of the same
/// version of the package runs the script, whether the run had succeeded
/// or not.
pub proof fn marked_script_never_runs_again(
    known: Known,
    plan: InstallPlanView,
    later_plan: InstallPlanView,
    first: Seq<EventView>,
    later: Seq<EventView>,
    j: int,
    k: int,
)
    requires
        later_plan.ran_marker == plan.ran_marker,
        0 <= j < first.len(),
        install_run(plan, install_start(plan).0, first.take(j)) is RanMarker,
        first[j] == EventView::Written(true),
        installation_agrees(known_after(known, plan, first), later_plan, later),
        0 <= k < later.len(),
    ensures
        !runs_script_at(later_plan, later, k),
{
    let upto = first.take(j + 1);
    assert(upto.drop_last() =~= first.take(j));
    assert(upto.last() == first[j]);
    assert(known_after(known, plan, upto).ran.contains(plan.ran_marker));
    known_persists(known, plan, first, j + 1);
    known_marker_keeps_the_script_from_running(known_after(known, plan, first), later_plan, later, k);
}

/// What is known at a point of a run is known at its end.
pub proof fn known_persists(known: Known, plan: InstallPlanView, events: Seq<EventView>, n: int)
    requires
        0 <= n <= events.len(),
    ensures
        known_after(known, plan, events.take(n)).cached.subset_of(
            known_after(known, plan, events).cached,
        ),
        known_after(known, plan, events.take(n)).ran.subset_of(
            known_after(known, plan, events).ran,
        ),
    decreases events.len() - n,
{
    if n == events.len() {
        assert(events.take(n) =~= events);
    } else {
        known_persists(known, plan, events, n + 1);
        let longer = events.take(n + 1);
        assert(longer.drop_last() =~= events.take(n));
    }
}

} // verus!
