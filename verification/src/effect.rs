//! The effects that the state machines ask for, and the events that answer
//! them. A machine never performs an effect: it names the next one, and is
//! told how it went.

use crate::archive::{op_views, ExtractOp, ExtractOpView};
use crate::config::texts;
use crate::model::{ExtensionRunLog, ExtensionRunLogView, ExtensionSpec};
use vstd::prelude::*;

verus! {

/// Something to do on the machine. Each effect is answered by one event,
/// of the kind named with it.
#[derive(Debug, Clone, PartialEq, Eq)]
pub enum Action {
    /// Look whether a file or directory exists. Answer: [`Event::Probed`].
    Probe { path: String },
    /// Read a version marker. Answer: [`Event::Marker`].
    ReadMarker { path: String },
    /// Request an address with GET. Answer: [`Event::Downloaded`].
    Download { url: String },
    /// Write an archive into the cache, all of it or nothing. Answer:
    /// [`Event::Written`].
    StoreArtifact { path: String, contents: Vec<u8> },
    /// Read a cached archive. Answer: [`Event::Archive`].
    ReadArchive { path: String },
    /// Create the target directory, then carry out the steps in their
    /// order. Answer: [`Event::Written`].
    Unpack { target: String, ops: Vec<ExtractOp> },
    /// Run a script through the script shell, without a profile and with
    /// the execution policy bypassed. Answer: [`Event::ScriptFinished`].
    RunScript { path: String },
    /// Write the record of a run as JSON. Answer: [`Event::Written`].
    WriteRunLog { path: String, log: ExtensionRunLog },
    /// Write a text file. Answer: [`Event::Written`].
    WriteText { path: String, contents: String },
    /// Read and parse a manifest. Answer: [`Event::Manifest`].
    ReadManifest { path: String },
    /// Delete a directory with all that is in it. Answer:
    /// [`Event::Removed`].
    RemoveTree { path: String },
    /// List the names of the directories right below a directory. Answer:
    /// [`Event::Listed`].
    ListDirectories { path: String },
}

/// The mathematical content of an [`Action`].
pub ghost enum ActionView {
    Probe { path: Seq<char> },
    ReadMarker { path: Seq<char> },
    Download { url: Seq<char> },
    StoreArtifact { path: Seq<char>, contents: Seq<u8> },
    ReadArchive { path: Seq<char> },
    Unpack { target: Seq<char>, ops: Seq<ExtractOpView> },
    RunScript { path: Seq<char> },
    WriteRunLog { path: Seq<char>, log: ExtensionRunLogView },
    WriteText { path: Seq<char>, contents: Seq<char> },
    ReadManifest { path: Seq<char> },
    RemoveTree { path: Seq<char> },
    ListDirectories { path: Seq<char> },
}

impl View for Action {
    type V = ActionView;

    open spec fn view(&self) -> ActionView {
        match self {
            Action::Probe { path } => ActionView::Probe { path: path@ },
            Action::ReadMarker { path } => ActionView::ReadMarker { path: path@ },
            Action::Download { url } => ActionView::Download { url: url@ },
            Action::StoreArtifact { path, contents } => ActionView::StoreArtifact {
                path: path@,
                contents: contents@,
            },
            Action::ReadArchive { path } => ActionView::ReadArchive { path: path@ },
            Action::Unpack { target, ops } => ActionView::Unpack {
                target: target@,
                ops: op_views(ops@),
            },
            Action::RunScript { path } => ActionView::RunScript { path: path@ },
            Action::WriteRunLog { path, log } => ActionView::WriteRunLog { path: path@, log: log@ },
            Action::WriteText { path, contents } => ActionView::WriteText {
                path: path@,
                contents: contents@,
            },
            Action::ReadManifest { path } => ActionView::ReadManifest { path: path@ },
            Action::RemoveTree { path } => ActionView::RemoveTree { path: path@ },
            Action::ListDirectories { path } => ActionView::ListDirectories { path: path@ },
        }
    }
}

impl ActionView {
    /// An effect that fetches, unpacks or runs a script: the work that a
    /// pass over a settled node does not do.
    pub open spec fn is_work(self) -> bool {
        self is Download || self is StoreArtifact || self is Unpack || self is RunScript
    }

    /// An effect that changes nothing on the machine.
    pub open spec fn is_observation(self) -> bool {
        self is Probe || self is ReadMarker || self is ReadArchive || self is ReadManifest
            || self is ListDirectories
    }
}

/// What reading a version marker gave.
#[derive(Debug, Clone, PartialEq, Eq)]
pub enum MarkerRead {
    /// There is no marker.
    Absent,
    /// The marker is there but could not be read.
    Unreadable,
    /// The marker holds this text.
    Content(String),
}

/// The mathematical content of a [`MarkerRead`].
pub ghost enum MarkerReadView {
    Absent,
    Unreadable,
    Content(Seq<char>),
}

impl View for MarkerRead {
    type V = MarkerReadView;

    open spec fn view(&self) -> MarkerReadView {
        match self {
            MarkerRead::Absent => MarkerReadView::Absent,
            MarkerRead::Unreadable => MarkerReadView::Unreadable,
            MarkerRead::Content(text) => MarkerReadView::Content(text@),
        }
    }
}

/// What reading a manifest gave.
#[derive(Debug, Clone, PartialEq, Eq)]
pub enum ManifestRead {
    /// There is no manifest.
    Absent,
    /// The manifest is there but could not be read or understood.
    Invalid,
    /// The manifest, parsed.
    Parsed(ExtensionSpec),
}

/// The mathematical content of a [`ManifestRead`]: of a parsed manifest,
/// the uninstall script that it names.
pub ghost enum ManifestReadView {
    Absent,
    Invalid,
    Parsed { uninstall_script: Option<Seq<char>> },
}

impl View for ManifestRead {
    type V = ManifestReadView;

    open spec fn view(&self) -> ManifestReadView {
        match self {
            ManifestRead::Absent => ManifestReadView::Absent,
            ManifestRead::Invalid => ManifestReadView::Invalid,
            ManifestRead::Parsed(spec) => ManifestReadView::Parsed {
                uninstall_script: spec.named_uninstall_script(),
            },
        }
    }
}

/// The answer of a package endpoint.
#[derive(Debug, Clone, PartialEq, Eq)]
pub struct HttpResponse {
    pub status: u16,
    pub body: Vec<u8>,
}

/// The mathematical content of an [`HttpResponse`].
pub ghost struct HttpResponseView {
    pub status: u16,
    pub body: Seq<u8>,
}

impl View for HttpResponse {
    type V = HttpResponseView;

    open spec fn view(&self) -> HttpResponseView {
        HttpResponseView { status: self.status, body: self.body@ }
    }
}

impl HttpResponseView {
    /// Whether the status is one of success: 200 to 299.
    pub open spec fn is_success(self) -> bool {
        200 <= self.status <= 299
    }
}

impl HttpResponse {
    /// Whether the status is one of success: 200 to 299.
    pub fn is_success(&self) -> (r: bool)
        ensures
            r == self@.is_success(),
    {
        200 <= self.status && self.status <= 299
    }
}

/// How an effect went.
#[derive(Debug, Clone, PartialEq, Eq)]
pub enum Event {
    /// Whether the file or directory exists.
    Probed(bool),
    /// What the version marker holds.
    Marker(MarkerRead),
    /// The endpoint's answer, or `None` where it gave none.
    Downloaded(Option<HttpResponse>),
    /// Whether everything was written.
    Written(bool),
    /// The archive's bytes, or `None` where it could not be read.
    Archive(Option<Vec<u8>>),
    /// The record of the script's run, or `None` where the script shell
    /// could not be started.
    ScriptFinished(Option<ExtensionRunLog>),
    /// What the manifest holds.
    Manifest(ManifestRead),
    /// Whether the directory is gone.
    Removed(bool),
    /// The names found, or `None` where the directory could not be listed.
    Listed(Option<Vec<String>>),
}

/// The mathematical content of an [`Event`].
pub ghost enum EventView {
    Probed(bool),
    Marker(MarkerReadView),
    Downloaded(Option<HttpResponseView>),
    Written(bool),
    Archive(Option<Seq<u8>>),
    ScriptFinished(Option<ExtensionRunLogView>),
    Manifest(ManifestReadView),
    Removed(bool),
    Listed(Option<Seq<Seq<char>>>),
}

impl View for Event {
    type V = EventView;

    open spec fn view(&self) -> EventView {
        match self {
            Event::Probed(found) => EventView::Probed(*found),
            Event::Marker(read) => EventView::Marker(read@),
            Event::Downloaded(response) => EventView::Downloaded(
                match response {
                    Some(r) => Some(r@),
                    None => None,
                },
            ),
            Event::Written(done) => EventView::Written(*done),
            Event::Archive(bytes) => EventView::Archive(
                match bytes {
                    Some(b) => Some(b@),
                    None => None,
                },
            ),
            Event::ScriptFinished(log) => EventView::ScriptFinished(
                match log {
                    Some(l) => Some(l@),
                    None => None,
                },
            ),
            Event::Manifest(read) => EventView::Manifest(read@),
            Event::Removed(done) => EventView::Removed(*done),
            Event::Listed(names) => EventView::Listed(
                match names {
                    Some(n) => Some(texts(n@)),
                    None => None,
                },
            ),
        }
    }
}

} // verus!
