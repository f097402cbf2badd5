//! Where things live: the directories and files below the application
//! root, the names of package archives and the addresses they come from.

use crate::constants::{
    CONFIG_FILE, DEFAULT_CLOUD_API_ROOT_DIR, EXTENSIONS_DIR, PACKAGE_CACHE_DIR, PACKAGE_SUFFIX,
    VERSION_MARKER,
};
use crate::text::{
    join, joined, same_beginning_same_rest, same_end_same_beginning, strip_trailing_slashes,
    without_trailing_slashes,
};
use vstd::prelude::*;
use vstd::string::StringExecFns;

verus! {

/// The directory that holds one directory per package.
pub open spec fn extensions_root(root: Seq<char>) -> Seq<char> {
    joined(root, EXTENSIONS_DIR@)
}

/// The directory of one package, with all its versions.
pub open spec fn extension_dir(root: Seq<char>, package_id: Seq<char>) -> Seq<char> {
    joined(extensions_root(root), package_id)
}

/// The directory of one version of a package: `v`, then the version.
pub open spec fn version_dir(root: Seq<char>, package_id: Seq<char>, version: Seq<char>) -> Seq<
    char,
> {
    joined(extension_dir(root, package_id), "v"@ + version)
}

/// The file that records the fingerprint last applied to a package.
pub open spec fn version_marker(root: Seq<char>, package_id: Seq<char>) -> Seq<char> {
    joined(extension_dir(root, package_id), VERSION_MARKER@)
}

/// The default package cache below the root.
pub open spec fn package_cache(root: Seq<char>) -> Seq<char> {
    joined(root, PACKAGE_CACHE_DIR@)
}

/// The desired-state file below the root.
pub open spec fn config_file(root: Seq<char>) -> Seq<char> {
    joined(root, CONFIG_FILE@)
}

/// The file name of a package archive: package id, hyphen, version, suffix.
pub open spec fn artifact_name(package_id: Seq<char>, version: Seq<char>) -> Seq<char> {
    package_id + "-"@ + version + PACKAGE_SUFFIX@
}

/// The address of an archive: the endpoint without the slashes at its
/// end, a slash, and the archive's name.
pub open spec fn artifact_url(endpoint: Seq<char>, artifact: Seq<char>) -> Seq<char> {
    joined(without_trailing_slashes(endpoint), artifact)
}

/// The address that serves packages, below the control plane's endpoint.
pub open spec fn package_endpoint(cloudapi_endpoint: Seq<char>) -> Seq<char> {
    joined(cloudapi_endpoint, "package"@)
}

/// The address that serves the machine's metadata.
pub open spec fn metadata_url(endpoint: Seq<char>) -> Seq<char> {
    endpoint + "/cloud-api/v1/metadata"@
}

/// The address that serves the extension records of the machine.
pub open spec fn extensions_url(endpoint: Seq<char>) -> Seq<char> {
    metadata_url(endpoint) + "/extensions"@
}

/// Packages of different ids have different directories and different
/// version markers below the same root.
pub proof fn package_paths_tell_packages_apart(root: Seq<char>, p: Seq<char>, q: Seq<char>)
    ensures
        extension_dir(root, p) == extension_dir(root, q) ==> p == q,
        version_marker(root, p) == version_marker(root, q) ==> p == q,
{
    let base = extensions_root(root) + "/"@;
    assert(extension_dir(root, p) == base + p);
    assert(extension_dir(root, q) == base + q);
    if extension_dir(root, p) == extension_dir(root, q) {
        same_beginning_same_rest(base, p, q);
    }
    let tail = "/"@ + VERSION_MARKER@;
    assert(version_marker(root, p) =~= extension_dir(root, p) + tail);
    assert(version_marker(root, q) =~= extension_dir(root, q) + tail);
    if version_marker(root, p) == version_marker(root, q) {
        same_end_same_beginning(extension_dir(root, p), extension_dir(root, q), tail);
        same_beginning_same_rest(base, p, q);
    }
}

/// The application root, from which every path on disk is built.
#[derive(Debug, Clone, PartialEq, Eq)]
pub struct Layout {
    pub root: String,
}

impl View for Layout {
    type V = Seq<char>;

    open spec fn view(&self) -> Seq<char> {
        self.root@
    }
}

impl Layout {
    /// The layout below `root`.
    pub fn new(root: &str) -> (r: Layout)
        ensures
            r@ == root@,
    {
        Layout { root: String::from_str(root) }
    }

    /// The layout below the default root.
    pub fn default() -> (r: Layout)
        ensures
            r@ == DEFAULT_CLOUD_API_ROOT_DIR@,
    {
        Layout::new(DEFAULT_CLOUD_API_ROOT_DIR)
    }

    /// The application root itself.
    pub fn root(&self) -> (r: &String)
        ensures
            r@ == self@,
    {
        &self.root
    }

    /// The directory that holds one directory per package.
    pub fn extensions_root(&self) -> (r: String)
        ensures
            r@ == extensions_root(self@),
    {
        join(self.root.as_str(), EXTENSIONS_DIR)
    }

    /// The directory of one package, with all its versions.
    pub fn extension_dir(&self, package_id: &str) -> (r: String)
        ensures
            r@ == extension_dir(self@, package_id@),
    {
        let base = self.extensions_root();
        join(base.as_str(), package_id)
    }

    /// The directory of one version of a package.
    pub fn version_dir(&self, package_id: &str, version: &str) -> (r: String)
        ensures
            r@ == version_dir(self@, package_id@, version@),
    {
        let base = self.extension_dir(package_id);
        let mut name = String::from_str("v");
        name.append(version);
        join(base.as_str(), name.as_str())
    }

    /// The file that records the fingerprint last applied to a package.
    pub fn version_marker(&self, package_id: &str) -> (r: String)
        ensures
            r@ == version_marker(self@, package_id@),
    {
        let base = self.extension_dir(package_id);
        join(base.as_str(), VERSION_MARKER)
    }

    /// The default package cache below the root.
    pub fn package_cache(&self) -> (r: String)
        ensures
            r@ == package_cache(self@),
    {
        join(self.root.as_str(), PACKAGE_CACHE_DIR)
    }

    /// The desired-state file below the root.
    pub fn config_file(&self) -> (r: String)
        ensures
            r@ == config_file(self@),
    {
        join(self.root.as_str(), CONFIG_FILE)
    }

    /// The directories that have to exist before the first pass: the
    /// root, the extensions directory and the package cache.
    pub fn required_directories(&self) -> (r: Vec<String>)
        ensures
            r@.len() == 3,
            r@[0]@ == self@,
            r@[1]@ == extensions_root(self@),
            r@[2]@ == package_cache(self@),
    {
        let mut dirs: Vec<String> = Vec::new();
        dirs.push(self.root.clone());
        dirs.push(self.extensions_root());
        dirs.push(self.package_cache());
        dirs
    }
}

/// The file name of the archive that holds `version` of a package.
pub fn artifact_file_name(package_id: &str, version: &str) -> (r: String)
    ensures
        r@ == artifact_name(package_id@, version@),
{
    let mut name = String::from_str(package_id);
    name.append("-");
    name.append(version);
    name.append(PACKAGE_SUFFIX);
    name
}

/// The address from which an archive is fetched.
pub fn artifact_address(endpoint: &str, artifact: &str) -> (r: String)
    ensures
        r@ == artifact_url(endpoint@, artifact@),
{
    join(strip_trailing_slashes(endpoint), artifact)
}

/// The address that serves the machine's metadata.
pub fn get_metadata_url(endpoint: &str) -> (r: String)
    ensures
        r@ == metadata_url(endpoint@),
{
    let mut url = String::from_str(endpoint);
    url.append("/cloud-api/v1/metadata");
    url
}

/// The address that serves the extension records of the machine.
pub fn get_extensions_url(endpoint: &str) -> (r: String)
    ensures
        r@ == extensions_url(endpoint@),
{
    let mut url = get_metadata_url(endpoint);
    url.append("/extensions");
    url
}

} // verus!
