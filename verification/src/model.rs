//! The desired-state records and the artifacts that a lifecycle script
//! leaves behind.

use crate::clock::{is_timestamp, timestamp_now};
use crate::text::decode_lossy;
use vstd::prelude::*;
use vstd::string::StringExecFns;

verus! {

/// Where an extension stands in its lifecycle.
#[derive(Debug, Clone, Copy, PartialEq, Eq, Structural)]
pub enum ExtensionStatus {
    NotInstalled,
    Installing,
    Installed,
    Uninstalling,
    Uninstalled,
    Failed,
    Disabled,
}

impl ExtensionStatus {
    /// The name under which the status is written in the desired-state file.
    pub open spec fn name(self) -> Seq<char> {
        match self {
            ExtensionStatus::NotInstalled => "not_installed"@,
            ExtensionStatus::Installing => "installing"@,
            ExtensionStatus::Installed => "installed"@,
            ExtensionStatus::Uninstalling => "uninstalling"@,
            ExtensionStatus::Uninstalled => "uninstalled"@,
            ExtensionStatus::Failed => "failed"@,
            ExtensionStatus::Disabled => "disabled"@,
        }
    }

    /// A status under which the extension is neither installed nor updated.
    pub open spec fn is_inactive(self) -> bool {
        self is Uninstalling || self is Uninstalled || self is Disabled
    }

    /// A status that asks for the extension's removal.
    pub open spec fn is_removal_bound(self) -> bool {
        self is Uninstalling
    }

    /// The name under which the status is written in the desired-state file.
    pub fn as_str(&self) -> (r: &'static str)
        ensures
            r@ == self.name(),
    {
        match self {
            ExtensionStatus::NotInstalled => "not_installed",
            ExtensionStatus::Installing => "installing",
            ExtensionStatus::Installed => "installed",
            ExtensionStatus::Uninstalling => "uninstalling",
            ExtensionStatus::Uninstalled => "uninstalled",
            ExtensionStatus::Failed => "failed",
            ExtensionStatus::Disabled => "disabled",
        }
    }

    /// Whether the status keeps the extension from being installed or updated.
    pub fn blocks_install(&self) -> (r: bool)
        ensures
            r == self.is_inactive(),
    {
        match self {
            ExtensionStatus::Uninstalling => true,
            ExtensionStatus::Uninstalled => true,
            ExtensionStatus::Disabled => true,
            _ => false,
        }
    }

    /// Whether the status asks for the extension's removal.
    pub fn requests_removal(&self) -> (r: bool)
        ensures
            r == self.is_removal_bound(),
    {
        match self {
            ExtensionStatus::Uninstalling => true,
            _ => false,
        }
    }
}

/// No two statuses have the same name.
pub proof fn status_names_differ(s: ExtensionStatus, t: ExtensionStatus)
    requires
        s.name() == t.name(),
    ensures
        s == t,
{
    reveal_strlit("not_installed");
    reveal_strlit("installing");
    reveal_strlit("installed");
    reveal_strlit("uninstalling");
    reveal_strlit("uninstalled");
    reveal_strlit("failed");
    reveal_strlit("disabled");
    assert(ExtensionStatus::NotInstalled.name().len() == 13);
    assert(ExtensionStatus::Uninstalling.name().len() == 12);
    assert(ExtensionStatus::Uninstalled.name().len() == 11);
    assert(ExtensionStatus::Installing.name().len() == 10);
    assert(ExtensionStatus::Installed.name().len() == 9);
    assert(ExtensionStatus::Disabled.name().len() == 8);
    assert(ExtensionStatus::Failed.name().len() == 6);
    assert(s.name().len() == t.name().len());
}

/// One extension as the desired state describes it.
#[derive(Debug, Clone, PartialEq, Eq)]
pub struct ExtensionState {
    pub uid: String,
    pub id: String,
    pub publisher: Option<String>,
    pub version: String,
    pub config: Option<String>,
    pub status: ExtensionStatus,
    pub modified_at: String,
}

/// The mathematical content of an [`ExtensionState`].
pub ghost struct ExtensionStateView {
    pub uid: Seq<char>,
    pub id: Seq<char>,
    pub publisher: Option<Seq<char>>,
    pub version: Seq<char>,
    pub config: Option<Seq<char>>,
    pub status: ExtensionStatus,
    pub modified_at: Seq<char>,
}

/// The characters of an optional text.
pub open spec fn optional_text(s: Option<String>) -> Option<Seq<char>> {
    match s {
        Some(t) => Some(t@),
        None => None,
    }
}

impl View for ExtensionState {
    type V = ExtensionStateView;

    open spec fn view(&self) -> ExtensionStateView {
        ExtensionStateView {
            uid: self.uid@,
            id: self.id@,
            publisher: optional_text(self.publisher),
            version: self.version@,
            config: optional_text(self.config),
            status: self.status,
            modified_at: self.modified_at@,
        }
    }
}

impl ExtensionStateView {
    /// The publisher, or `none` where there is none.
    pub open spec fn publisher_or_none(self) -> Seq<char> {
        match self.publisher {
            Some(p) => p,
            None => "none"@,
        }
    }

    /// Publisher and id, joined by a hyphen: the name of the extension's
    /// directory on disk.
    pub open spec fn package_id(self) -> Seq<char> {
        self.publisher_or_none() + "-"@ + self.id
    }

    /// Whether the extension is to be installed or kept up to date.
    pub open spec fn is_active(self) -> bool {
        !self.status.is_inactive()
    }

    /// Whether the extension is to be removed.
    pub open spec fn is_flagged_for_removal(self) -> bool {
        self.status.is_removal_bound()
    }
}

impl ExtensionState {
    /// A record that is not installed yet, last modified at `modified_at`.
    pub fn stamped(uid: &str, id: &str, version: &str, modified_at: String) -> (r: ExtensionState)
        ensures
            r@ == (ExtensionStateView {
                uid: uid@,
                id: id@,
                publisher: None,
                version: version@,
                config: None,
                status: ExtensionStatus::NotInstalled,
                modified_at: modified_at@,
            }),
    {
        ExtensionState {
            uid: String::from_str(uid),
            id: String::from_str(id),
            publisher: None,
            version: String::from_str(version),
            config: None,
            status: ExtensionStatus::NotInstalled,
            modified_at,
        }
    }

    /// A record that is not installed yet, last modified at the time that
    /// the clock shows.
    pub fn new(uid: &str, id: &str, version: &str) -> (r: ExtensionState)
        ensures
            r@ == (ExtensionStateView {
                uid: uid@,
                id: id@,
                publisher: None,
                version: version@,
                config: None,
                status: ExtensionStatus::NotInstalled,
                modified_at: r@.modified_at,
            }),
            is_timestamp(r@.modified_at),
    {
        ExtensionState::stamped(uid, id, version, timestamp_now())
    }

    /// Names the publisher.
    pub fn set_publisher(&mut self, publisher: &str)
        ensures
            final(self)@ == (ExtensionStateView { publisher: Some(publisher@), ..old(self)@ }),
    {
        self.publisher = Some(String::from_str(publisher));
    }

    /// Attaches a configuration.
    pub fn set_config(&mut self, config: &str)
        ensures
            final(self)@ == (ExtensionStateView { config: Some(config@), ..old(self)@ }),
    {
        self.config = Some(String::from_str(config));
    }

    /// Moves the extension to another place in its lifecycle.
    pub fn set_status(&mut self, status: ExtensionStatus)
        ensures
            final(self)@ == (ExtensionStateView { status: status, ..old(self)@ }),
    {
        self.status = status;
    }

    /// Publisher and id, joined by a hyphen; `none` stands for a missing
    /// publisher.
    pub fn get_package_id(&self) -> (r: String)
        ensures
            r@ == self@.package_id(),
    {
        let mut id = match &self.publisher {
            Some(p) => String::from_str(p.as_str()),
            None => String::from_str("none"),
        };
        id.append("-");
        id.append(self.id.as_str());
        id
    }

    /// Whether the extension is to be installed or kept up to date.
    pub fn is_active(&self) -> (r: bool)
        ensures
            r == self@.is_active(),
    {
        !self.status.blocks_install()
    }

    /// Whether the extension is to be removed.
    pub fn is_flagged_for_removal(&self) -> (r: bool)
        ensures
            r == self@.is_flagged_for_removal(),
    {
        self.status.requests_removal()
    }

    /// A record with the same content.
    pub fn duplicate(&self) -> (r: ExtensionState)
        ensures
            r@ == self@,
    {
        ExtensionState {
            uid: self.uid.clone(),
            id: self.id.clone(),
            publisher: match &self.publisher {
                Some(p) => Some(p.clone()),
                None => None,
            },
            version: self.version.clone(),
            config: match &self.config {
                Some(c) => Some(c.clone()),
                None => None,
            },
            status: self.status,
            modified_at: self.modified_at.clone(),
        }
    }
}

/// What one run of a lifecycle script left behind.
#[derive(Debug, Clone, PartialEq, Eq)]
pub struct ExtensionRunLog {
    pub executed_at: String,
    pub exit_code: i32,
    pub stdout: String,
    pub stderr: String,
}

/// The mathematical content of an [`ExtensionRunLog`].
pub ghost struct ExtensionRunLogView {
    pub executed_at: Seq<char>,
    pub exit_code: int,
    pub stdout: Seq<char>,
    pub stderr: Seq<char>,
}

impl View for ExtensionRunLog {
    type V = ExtensionRunLogView;

    open spec fn view(&self) -> ExtensionRunLogView {
        ExtensionRunLogView {
            executed_at: self.executed_at@,
            exit_code: self.exit_code as int,
            stdout: self.stdout@,
            stderr: self.stderr@,
        }
    }
}

/// The exit code on record for a process: its own, or -1 where it ended
/// without one.
pub open spec fn recorded_exit_code(code: Option<i32>) -> int {
    match code {
        Some(c) => c as int,
        None => -1,
    }
}

impl ExtensionRunLog {
    /// The record of a run that ended at `executed_at`.
    pub fn assemble(executed_at: String, code: Option<i32>, stdout: &[u8], stderr: &[u8]) -> (r:
        ExtensionRunLog)
        ensures
            r@ == (ExtensionRunLogView {
                executed_at: executed_at@,
                exit_code: recorded_exit_code(code),
                stdout: crate::text::utf8_lossy(stdout@),
                stderr: crate::text::utf8_lossy(stderr@),
            }),
    {
        ExtensionRunLog {
            executed_at,
            exit_code: match code {
                Some(c) => c,
                None => -1,
            },
            stdout: decode_lossy(stdout),
            stderr: decode_lossy(stderr),
        }
    }

    /// The record of a run that has just ended, at the time that the clock
    /// shows.
    pub fn capture(code: Option<i32>, stdout: &[u8], stderr: &[u8]) -> (r: ExtensionRunLog)
        ensures
            r@ == (ExtensionRunLogView {
                executed_at: r@.executed_at,
                exit_code: recorded_exit_code(code),
                stdout: crate::text::utf8_lossy(stdout@),
                stderr: crate::text::utf8_lossy(stderr@),
            }),
            is_timestamp(r@.executed_at),
    {
        ExtensionRunLog::assemble(timestamp_now(), code, stdout, stderr)
    }
}

/// The manifest that a package may carry in its version directory.
#[derive(Debug, Clone, PartialEq, Eq)]
pub struct ExtensionSpec {
    pub id: String,
    pub publisher: String,
    pub version: String,
    pub description: Option<String>,
    pub install_script: Option<String>,
    pub uninstall_script: Option<String>,
    pub config_schema: Option<String>,
    pub one_time_script: Option<String>,
}

impl ExtensionSpec {
    /// The uninstall script that the manifest names, if it names one that
    /// is not empty.
    pub open spec fn named_uninstall_script(&self) -> Option<Seq<char>> {
        match self.uninstall_script {
            Some(s) => if s@.len() > 0 {
                Some(s@)
            } else {
                None
            },
            None => None,
        }
    }
}

/// What the control plane tells about the machine itself.
#[derive(Debug, Clone, PartialEq, Eq)]
pub struct MetadataResponse {
    pub instance_id: String,
    pub location: String,
    pub name: String,
    pub os_type: String,
    pub zone: Option<String>,
}

} // verus!
