//! The desired state of a node: where packages come from, where they are
//! cached, and the extensions that should be present.

use crate::constants::CLOUD_METADATA_V1_ENDPOINT;
use crate::layout::Layout;
use crate::model::{ExtensionState, ExtensionStateView};
use crate::text::{join, same_text};
use vstd::prelude::*;
use vstd::string::StringExecFns;

verus! {

/// The mathematical content of each record of a list.
pub open spec fn views(extensions: Seq<ExtensionState>) -> Seq<ExtensionStateView> {
    extensions.map_values(|e: ExtensionState| e@)
}

/// The characters of each text of a list.
pub open spec fn texts(names: Seq<String>) -> Seq<Seq<char>> {
    names.map_values(|s: String| s@)
}

/// The records whose uid is not `uid`, in their order.
pub open spec fn without_uid(extensions: Seq<ExtensionStateView>, uid: Seq<char>) -> Seq<
    ExtensionStateView,
> {
    extensions.filter(|e: ExtensionStateView| e.uid != uid)
}

/// The place of the first record whose uid is `uid`; the length of the
/// list where there is none.
pub open spec fn first_with_uid(extensions: Seq<ExtensionStateView>, uid: Seq<char>) -> int
    decreases extensions.len(),
{
    if extensions.len() == 0 {
        0
    } else if extensions.first().uid == uid {
        0
    } else {
        1 + first_with_uid(extensions.drop_first(), uid)
    }
}

/// The list with `record` taken in: it stands in the place of the first
/// record of its uid, and any later record of that uid is dropped; where
/// the list holds none of its uid, it is added at the end. Every other
/// record keeps its place.
pub open spec fn upserted(extensions: Seq<ExtensionStateView>, record: ExtensionStateView) -> Seq<
    ExtensionStateView,
> {
    let at = first_with_uid(extensions, record.uid);
    if at < extensions.len() {
        extensions.take(at).push(record) + without_uid(
            extensions.skip(at + 1),
            record.uid,
        )
    } else {
        extensions.push(record)
    }
}

/// The list after each incoming record, in turn, has been taken in.
pub open spec fn merged(extensions: Seq<ExtensionStateView>, incoming: Seq<ExtensionStateView>) -> Seq<
    ExtensionStateView,
>
    decreases incoming.len(),
{
    if incoming.len() == 0 {
        extensions
    } else {
        upserted(merged(extensions, incoming.drop_last()), incoming.last())
    }
}

/// `first_with_uid` names the first record of the uid: no record before
/// it has the uid, and the record at it has, where it lies in the list.
pub proof fn first_with_uid_is_first(extensions: Seq<ExtensionStateView>, uid: Seq<char>)
    ensures
        0 <= first_with_uid(extensions, uid) <= extensions.len(),
        forall|j: int|
            0 <= j < first_with_uid(extensions, uid) ==> (#[trigger] extensions[j]).uid != uid,
        first_with_uid(extensions, uid) < extensions.len() ==> extensions[first_with_uid(
            extensions,
            uid,
        )].uid == uid,
    decreases extensions.len(),
{
    if extensions.len() > 0 && extensions.first().uid != uid {
        let rest = extensions.drop_first();
        first_with_uid_is_first(rest, uid);
        assert forall|j: int| 0 <= j < first_with_uid(extensions, uid) implies (
        #[trigger] extensions[j]).uid != uid by {
            if j > 0 {
                assert(extensions[j] == rest[j - 1]);
            }
        }
    }
}

/// A record that is taken in stands at the first place of its uid, or at
/// the end where the list held none; the records before that place stay as
/// they are, and no other record of the list has its uid afterwards.
pub proof fn record_taken_in_keeps_the_place(
    extensions: Seq<ExtensionStateView>,
    record: ExtensionStateView,
)
    ensures
        ({
            let at = first_with_uid(extensions, record.uid);
            let after = upserted(extensions, record);
            &&& 0 <= at < after.len()
            &&& after[at] == record
            &&& forall|j: int| 0 <= j < at ==> #[trigger] after[j] == extensions[j]
            &&& forall|j: int| 0 <= j < after.len() && j != at ==> (#[trigger] after[j]).uid != record.uid
            &&& after.len() <= extensions.len() + 1
        }),
{
    first_with_uid_is_first(extensions, record.uid);
    let at = first_with_uid(extensions, record.uid);
    let after = upserted(extensions, record);
    let keep = |e: ExtensionStateView| e.uid != record.uid;
    if at < extensions.len() {
        let tail = extensions.skip(at + 1).filter(keep);
        extensions.skip(at + 1).lemma_filter_len(keep);
        assert forall|j: int| 0 <= j < after.len() && j != at implies (#[trigger] after[j]).uid
            != record.uid by {
            if j > at {
                assert(after[j] == tail[j - at - 1]);
                extensions.skip(at + 1).lemma_filter_pred(keep, j - at - 1);
            }
        }
    }
}

/// A place that has the uid, with no record of the uid before it, is the
/// first place of the uid.
pub proof fn first_with_uid_is_unique(extensions: Seq<ExtensionStateView>, uid: Seq<char>, at: int)
    requires
        0 <= at <= extensions.len(),
        forall|j: int| 0 <= j < at ==> (#[trigger] extensions[j]).uid != uid,
        at < extensions.len() ==> extensions[at].uid == uid,
    ensures
        first_with_uid(extensions, uid) == at,
{
    first_with_uid_is_first(extensions, uid);
}

/// The package id of each record, in the list's order.
pub open spec fn package_ids(extensions: Seq<ExtensionStateView>) -> Seq<Seq<char>> {
    extensions.map_values(|e: ExtensionStateView| e.package_id())
}

/// The desired state of a node.
#[derive(Debug, Clone, PartialEq, Eq)]
pub struct InstallrConfig {
    /// The endpoint of the control plane.
    pub cloudapi_endpoint: String,
    /// The address that serves packages, where the desired state names one
    /// of its own; else packages come from below the control plane.
    pub package_endpoint: Option<String>,
    pub package_cache: String,
    pub extensions: Vec<ExtensionState>,
}

/// The mathematical content of an [`InstallrConfig`].
pub ghost struct InstallrConfigView {
    pub cloudapi_endpoint: Seq<char>,
    pub package_endpoint: Option<Seq<char>>,
    pub package_cache: Seq<char>,
    pub extensions: Seq<ExtensionStateView>,
}

impl View for InstallrConfig {
    type V = InstallrConfigView;

    open spec fn view(&self) -> InstallrConfigView {
        InstallrConfigView {
            cloudapi_endpoint: self.cloudapi_endpoint@,
            package_endpoint: crate::model::optional_text(self.package_endpoint),
            package_cache: self.package_cache@,
            extensions: views(self.extensions@),
        }
    }
}

impl InstallrConfigView {
    /// The address that serves packages.
    pub open spec fn package_endpoint(self) -> Seq<char> {
        match self.package_endpoint {
            Some(endpoint) => endpoint,
            None => crate::layout::package_endpoint(self.cloudapi_endpoint),
        }
    }

    /// The package ids that the desired state names, removals included.
    pub open spec fn package_ids(self) -> Seq<Seq<char>> {
        package_ids(self.extensions)
    }
}

impl InstallrConfig {
    /// The desired state of a fresh node below the default root: the
    /// link-local endpoint, the cache below the root, no extensions.
    pub fn default() -> (r: InstallrConfig)
        ensures
            r@ == (InstallrConfigView {
                cloudapi_endpoint: CLOUD_METADATA_V1_ENDPOINT@,
                package_endpoint: None,
                package_cache: crate::layout::package_cache(
                    crate::constants::DEFAULT_CLOUD_API_ROOT_DIR@,
                ),
                extensions: Seq::empty(),
            }),
    {
        InstallrConfig::default_in(&Layout::default())
    }

    /// The desired state of a fresh node below the root of `layout`.
    pub fn default_in(layout: &Layout) -> (r: InstallrConfig)
        ensures
            r@ == (InstallrConfigView {
                cloudapi_endpoint: CLOUD_METADATA_V1_ENDPOINT@,
                package_endpoint: None,
                package_cache: crate::layout::package_cache(layout@),
                extensions: Seq::empty(),
            }),
    {
        let r = InstallrConfig {
            cloudapi_endpoint: String::from_str(CLOUD_METADATA_V1_ENDPOINT),
            package_endpoint: None,
            package_cache: layout.package_cache(),
            extensions: Vec::new(),
        };
        assert(views(r.extensions@) =~= Seq::empty());
        r
    }

    /// The endpoint of the control plane.
    pub fn get_cloudapi_endpoint(&self) -> (r: &String)
        ensures
            r@ == self@.cloudapi_endpoint,
    {
        &self.cloudapi_endpoint
    }

    /// The address that serves packages: the one that the desired state
    /// names, or else the endpoint of the control plane, a slash, `package`.
    pub fn get_package_endpoint(&self) -> (r: String)
        ensures
            r@ == self@.package_endpoint(),
    {
        match &self.package_endpoint {
            Some(endpoint) => endpoint.clone(),
            None => join(self.cloudapi_endpoint.as_str(), "package"),
        }
    }

    /// The directory in which downloaded archives are kept.
    pub fn get_package_cache(&self) -> (r: &String)
        ensures
            r@ == self@.package_cache,
    {
        &self.package_cache
    }

    /// The extensions, in the order of the desired state.
    pub fn get_extensions(&self) -> (r: &Vec<ExtensionState>)
        ensures
            views(r@) == self@.extensions,
            r@ == self.extensions@,
    {
        &self.extensions
    }

    /// Adds a record at the end of the list.
    pub fn add_extension(&mut self, extension: ExtensionState)
        ensures
            final(self)@ == (InstallrConfigView {
                extensions: old(self)@.extensions.push(extension@),
                ..old(self)@
            }),
    {
        self.extensions.push(extension);
        assert(views(self.extensions@) =~= views(old(self).extensions@).push(extension@));
    }

    /// Removes every record whose uid is `uid`; the others keep their order.
    pub fn remove_extension(&mut self, uid: &str)
        ensures
            final(self)@ == (InstallrConfigView {
                extensions: without_uid(old(self)@.extensions, uid@),
                ..old(self)@
            }),
    {
        let mut rest: Vec<ExtensionState> = Vec::new();
        std::mem::swap(&mut self.extensions, &mut rest);
        let ghost before = rest@;
        let ghost keep = |e: ExtensionStateView| e.uid != uid@;
        let mut kept: Vec<ExtensionState> = Vec::new();
        assert(views(kept@) =~= views(before.take(0)).filter(keep));
        for e in it: rest
            invariant
                it.seq() == before,
                keep == |e: ExtensionStateView| e.uid != uid@,
                views(kept@) == views(before.take(it.index() as int)).filter(keep),
        {
            proof {
                let i = it.index() as int;
                assert(views(before.take(i + 1)) =~= views(before.take(i)).push(e@));
                views(before.take(i)).lemma_filter_push(e@, keep);
            }
            let ghost prior = kept@;
            if !same_text(e.uid.as_str(), uid) {
                kept.push(e);
                assert(views(kept@) =~= views(prior).push(e@));
            }
        }
        assert(before.take(before.len() as int) == before);
        self.extensions = kept;
    }

    /// Takes in one record: it replaces the first record of its uid, where
    /// it stands, and any later record of that uid is dropped; where there
    /// is none of its uid, it is added at the end.
    pub fn upsert_extension(&mut self, record: ExtensionState)
        ensures
            final(self)@ == (InstallrConfigView {
                extensions: upserted(old(self)@.extensions, record@),
                ..old(self)@
            }),
    {
        let mut rest: Vec<ExtensionState> = Vec::new();
        std::mem::swap(&mut self.extensions, &mut rest);
        let ghost before = rest@;
        let ghost all = views(before);
        let ghost uid = record@.uid;
        let ghost keep = |e: ExtensionStateView| e.uid != uid;
        let ghost given = record@;
        let uid_text = record.uid.clone();
        let ghost mut placed_at: int = -1;
        let mut pending: Option<ExtensionState> = Some(record);
        let mut kept: Vec<ExtensionState> = Vec::new();
        assert(views(kept@) =~= all.take(0));
        for e in it: rest
            invariant
                it.seq() == before,
                all == views(before),
                uid == given.uid,
                uid_text@ == uid,
                keep == |e: ExtensionStateView| e.uid != uid,
                pending matches Some(p) ==> p@ == given,
                pending is Some <==> placed_at == -1,
                -1 <= placed_at < it.index(),
                forall|j: int|
                    0 <= j < (if placed_at == -1 {
                        it.index() as int
                    } else {
                        placed_at
                    }) ==> (#[trigger] all[j]).uid != uid,
                placed_at >= 0 ==> all[placed_at].uid == uid,
                placed_at == -1 ==> views(kept@) == all.take(it.index() as int),
                placed_at >= 0 ==> views(kept@) == all.take(placed_at).push(given) + all.subrange(
                    placed_at + 1,
                    it.index() as int,
                ).filter(keep),
        {
            let ghost i = it.index() as int;
            let ghost prior = kept@;
            assert(all[i] == e@);
            if same_text(e.uid.as_str(), uid_text.as_str()) {
                match pending.take() {
                    Some(p) => {
                        proof {
                            placed_at = i;
                        }
                        kept.push(p);
                        proof {
                            assert(views(kept@) =~= views(prior).push(given));
                            assert(all.subrange(i + 1, i + 1).filter(keep) =~= Seq::empty());
                            assert(views(kept@) =~= all.take(i).push(given) + all.subrange(
                                i + 1,
                                i + 1,
                            ).filter(keep));
                        }
                    },
                    None => {
                        proof {
                            let sofar = all.subrange(placed_at + 1, i);
                            assert(all.subrange(placed_at + 1, i + 1) =~= sofar.push(e@));
                            sofar.lemma_filter_push(e@, keep);
                        }
                    },
                }
            } else {
                kept.push(e);
                proof {
                    assert(views(kept@) =~= views(prior).push(all[i]));
                    if placed_at == -1 {
                        assert(all.take(i + 1) =~= all.take(i).push(all[i]));
                    } else {
                        let sofar = all.subrange(placed_at + 1, i);
                        assert(all.subrange(placed_at + 1, i + 1) =~= sofar.push(all[i]));
                        sofar.lemma_filter_push(all[i], keep);
                        assert(views(kept@) =~= all.take(placed_at).push(given) + all.subrange(
                            placed_at + 1,
                            i + 1,
                        ).filter(keep));
                    }
                }
            }
        }
        let ghost prior = kept@;
        match pending {
            Some(p) => {
                kept.push(p);
                proof {
                    assert(all.take(all.len() as int) =~= all);
                    assert(views(kept@) =~= all.push(given));
                    first_with_uid_is_unique(all, uid, all.len() as int);
                }
            },
            None => {
                proof {
                    first_with_uid_is_unique(all, uid, placed_at);
                    assert(all.skip(placed_at + 1) =~= all.subrange(
                        placed_at + 1,
                        all.len() as int,
                    ));
                }
            },
        }
        self.extensions = kept;
    }

    /// Takes in the records that the control plane reports, in the order
    /// given: each replaces the record of its uid where that stands, and is
    /// added at the end where there is none.
    pub fn merge_extension_states(&mut self, incoming: Vec<ExtensionState>)
        ensures
            final(self)@ == (InstallrConfigView {
                extensions: merged(old(self)@.extensions, views(incoming@)),
                ..old(self)@
            }),
    {
        let ghost all = incoming@;
        for state in it: incoming
            invariant
                it.seq() == all,
                self@ == (InstallrConfigView {
                    extensions: merged(
                        old(self)@.extensions,
                        views(all.take(it.index() as int)),
                    ),
                    ..old(self)@
                }),
        {
            proof {
                let i = it.index() as int;
                let next = views(all.take(i + 1));
                assert(next.drop_last() =~= views(all.take(i)));
                assert(next.last() == state@);
            }
            self.upsert_extension(state);
        }
        assert(all.take(all.len() as int) == all);
    }

    /// A desired state with the same content.
    pub fn duplicate(&self) -> (r: InstallrConfig)
        ensures
            r@ == self@,
    {
        let mut extensions: Vec<ExtensionState> = Vec::new();
        let mut i: usize = 0;
        while i < self.extensions.len()
            invariant
                i <= self.extensions.len(),
                views(extensions@) == views(self.extensions@.take(i as int)),
            decreases self.extensions.len() - i,
        {
            let ghost prior = extensions@;
            let copy = self.extensions[i].duplicate();
            extensions.push(copy);
            proof {
                assert(views(extensions@) =~= views(prior).push(copy@));
                assert(views(self.extensions@.take(i as int + 1)) =~= views(
                    self.extensions@.take(i as int),
                ).push(self.extensions@[i as int]@));
            }
            i = i + 1;
        }
        assert(self.extensions@.take(self.extensions@.len() as int) == self.extensions@);
        InstallrConfig {
            cloudapi_endpoint: self.cloudapi_endpoint.clone(),
            package_endpoint: match &self.package_endpoint {
                Some(endpoint) => Some(endpoint.clone()),
                None => None,
            },
            package_cache: self.package_cache.clone(),
            extensions,
        }
    }

    /// The package id of every record in the list, in the list's order.
    pub fn desired_package_ids(&self) -> (r: Vec<String>)
        ensures
            texts(r@) == self@.package_ids(),
    {
        let mut ids: Vec<String> = Vec::new();
        let mut i: usize = 0;
        while i < self.extensions.len()
            invariant
                i <= self.extensions.len(),
                texts(ids@) == package_ids(views(self.extensions@.take(i as int))),
            decreases self.extensions.len() - i,
        {
            let id = self.extensions[i].get_package_id();
            let ghost prior = ids@;
            ids.push(id);
            proof {
                assert(texts(ids@) =~= texts(prior).push(id@));
                assert(package_ids(views(self.extensions@.take(i as int + 1))) =~= package_ids(
                    views(self.extensions@.take(i as int)),
                ).push(self.extensions@[i as int]@.package_id()));
            }
            i = i + 1;
        }
        assert(self.extensions@.take(self.extensions@.len() as int) == self.extensions@);
        ids
    }
}

/// Whether a list of texts holds `name`.
pub fn contains_text(names: &Vec<String>, name: &str) -> (r: bool)
    ensures
        r == texts(names@).contains(name@),
{
    let mut i: usize = 0;
    while i < names.len()
        invariant
            i <= names.len(),
            forall|j: int| 0 <= j < i ==> texts(names@)[j] != name@,
        decreases names.len() - i,
    {
        if same_text(names[i].as_str(), name) {
            assert(texts(names@)[i as int] == name@);
            return true;
        }
        i = i + 1;
    }
    false
}

} // verus!
