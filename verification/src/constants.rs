//! Names and defaults that the rest of the library builds on.

use vstd::prelude::*;

verus! {

/// Application root on Unix-like systems.
pub const DEFAULT_CLOUD_API_ROOT_DIR: &'static str = "/var/lib/cloud-api";

/// Application root on Windows.
pub const WINDOWS_CLOUD_API_ROOT_DIR: &'static str = "C:\\cloud-api";

/// The link-local metadata endpoint of the control plane.
pub const CLOUD_METADATA_V1_ENDPOINT: &'static str = "http://169.254.169.254";

/// The alternative metadata endpoint of the control plane.
pub const CLOUD_METADATA_V2_ENDPOINT: &'static str = "http://168.63.129.16";

/// Directory under the application root that holds one directory per package.
pub const EXTENSIONS_DIR: &'static str = "extensions";

/// Directory under the application root that holds downloaded archives.
pub const PACKAGE_CACHE_DIR: &'static str = "package-cache";

/// File under a package directory that holds the fingerprint last applied.
pub const VERSION_MARKER: &'static str = "VERSION";

/// Suffix of a package archive's file name.
pub const PACKAGE_SUFFIX: &'static str = ".extpkg";

/// Install script looked for in a version directory.
pub const INSTALL_SCRIPT: &'static str = "install.ps1";

/// Uninstall script looked for in a version directory when the manifest names none.
pub const UNINSTALL_SCRIPT: &'static str = "uninstall.ps1";

/// Marker written once the install script of a version directory has run.
pub const RAN_MARKER: &'static str = "ran.lock";

/// Record of the install script's run, beside the marker.
pub const RUN_LOG: &'static str = "run-log.json";

/// Manifest that a package may carry in its version directory.
pub const MANIFEST_FILE: &'static str = "extension.spec";

/// Name of the desired-state file under the application root.
pub const CONFIG_FILE: &'static str = "installr.config.json";

/// Shell that runs lifecycle scripts.
pub const SCRIPT_SHELL: &'static str = "pwsh";

/// The Unix epoch as a timestamp: what stands in for the time where the
/// clock gives none.
pub const UNIX_EPOCH_TIMESTAMP: &'static str = "1970-01-01T00:00:00+00:00";

/// Seconds between two reconciliation passes.
pub const DEFAULT_POLL_INTERVAL_SECS: u64 = 15;

} // verus!
