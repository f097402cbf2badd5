//! Package archives: what they hold, which of their entries may be written
//! below a target directory, and the plan for writing them.

use crate::error::ExtensionError;
use crate::text::{chars_of, join, joined};
use vstd::prelude::*;

verus! {

/// `zip::ZipArchive`: an archive that has been opened over a reader.
#[verifier::external_type_specification]
#[verifier::external_body]
#[verifier::reject_recursive_types(R)]
pub struct ExZipArchive<R>(zip::ZipArchive<R>);

/// `std::io::Cursor`: a reader over bytes in memory.
#[verifier::external_type_specification]
#[verifier::external_body]
#[verifier::reject_recursive_types(T)]
pub struct ExCursor<T>(std::io::Cursor<T>);

/// `zip::result::ZipError`: why an archive was refused.
#[verifier::external_type_specification]
#[verifier::external_body]
pub struct ExZipError(zip::result::ZipError);

/// One entry of an archive: its name as the archive gives it, and its
/// content, uncompressed.
#[derive(Debug, Clone, PartialEq, Eq)]
pub struct ArchiveEntry {
    pub name: String,
    pub contents: Vec<u8>,
}

/// The mathematical content of an [`ArchiveEntry`].
pub ghost struct ArchiveEntryView {
    pub name: Seq<char>,
    pub contents: Seq<u8>,
}

impl View for ArchiveEntry {
    type V = ArchiveEntryView;

    open spec fn view(&self) -> ArchiveEntryView {
        ArchiveEntryView { name: self.name@, contents: self.contents@ }
    }
}

/// One step of unpacking: a directory to create, or a file to write with
/// the directories above it.
#[derive(Debug, Clone, PartialEq, Eq)]
pub enum ExtractOp {
    Directory { path: String },
    File { path: String, contents: Vec<u8> },
}

/// The mathematical content of an [`ExtractOp`].
pub ghost enum ExtractOpView {
    Directory { path: Seq<char> },
    File { path: Seq<char>, contents: Seq<u8> },
}

impl View for ExtractOp {
    type V = ExtractOpView;

    open spec fn view(&self) -> ExtractOpView {
        match self {
            ExtractOp::Directory { path } => ExtractOpView::Directory { path: path@ },
            ExtractOp::File { path, contents } => ExtractOpView::File {
                path: path@,
                contents: contents@,
            },
        }
    }
}

/// The mathematical content of each entry of a list.
pub open spec fn entry_views(entries: Seq<ArchiveEntry>) -> Seq<ArchiveEntryView> {
    entries.map_values(|e: ArchiveEntry| e@)
}

/// The mathematical content of each step of a plan.
pub open spec fn op_views(ops: Seq<ExtractOp>) -> Seq<ExtractOpView> {
    ops.map_values(|o: ExtractOp| o@)
}

/// The entries of an open archive, in the order of its central directory;
/// `None` stands for an entry that cannot be read.
pub uninterp spec fn archive_entries(archive: zip::ZipArchive<std::io::Cursor<Vec<u8>>>) -> Seq<
    Option<ArchiveEntryView>,
>;

/// What `ZipArchive::new` finds in a byte string: the entries of the
/// archive, or `None` where the bytes are no archive that it can open.
pub uninterp spec fn unpacked(bytes: Seq<u8>) -> Option<Seq<Option<ArchiveEntryView>>>;

/// `ZipArchive::new` over the bytes: the archive is opened from its central
/// directory, or the bytes are refused.
#[verifier::external_body]
pub(crate) fn open_archive(bytes: Vec<u8>) -> (r: Result<
    zip::ZipArchive<std::io::Cursor<Vec<u8>>>,
    zip::result::ZipError,
>)
    ensures
        match r {
            Ok(archive) => unpacked(bytes@) == Some(archive_entries(archive)),
            Err(_) => unpacked(bytes@) is None,
        },
{
    zip::ZipArchive::new(std::io::Cursor::new(bytes))
}

/// `ZipArchive::len`: the number of entries.
#[verifier::external_body]
pub(crate) fn entry_count(archive: &zip::ZipArchive<std::io::Cursor<Vec<u8>>>) -> (r: usize)
    ensures
        r == archive_entries(*archive).len(),
{
    archive.len()
}

/// `ZipArchive::by_index_decrypt` with an empty password, with the
/// entry's name and its content read to the end. For an entry that is not
/// encrypted this is what `by_index` opens, but no answer of the crate is
/// unwrapped on the way. The archive holds the same entries afterwards. An
/// entry cannot be read where it is compressed in a way that is not
/// supported, where its content does not match its checksum, or where it
/// is encrypted, unless with the empty password.
#[verifier::external_body]
pub(crate) fn entry_at(archive: &mut zip::ZipArchive<std::io::Cursor<Vec<u8>>>, index: usize) -> (r:
    Option<ArchiveEntry>)
    requires
        index < archive_entries(*old(archive)).len(),
    ensures
        archive_entries(*final(archive)) == archive_entries(*old(archive)),
        match r {
            Some(entry) => archive_entries(*old(archive))[index as int] == Some(entry@),
            None => archive_entries(*old(archive))[index as int] is None,
        },
{
    let mut file = archive.by_index_decrypt(index, b"").ok()?.ok()?;
    let name = file.name().to_string();
    let mut contents = Vec::new();
    std::io::Read::read_to_end(&mut file, &mut contents).ok()?;
    Some(ArchiveEntry { name, contents })
}

/// A character that separates the components of a path.
pub open spec fn is_separator(c: char) -> bool {
    c == '/' || c == '\\'
}

/// Whether a component `..` starts at position `i`.
pub open spec fn parent_component_at(name: Seq<char>, i: int) -> bool {
    &&& 0 <= i
    &&& i + 2 <= name.len()
    &&& name[i] == '.'
    &&& name[i + 1] == '.'
    &&& (i == 0 || is_separator(name[i - 1]))
    &&& (i + 2 == name.len() || is_separator(name[i + 2]))
}

/// Whether one of the components is `..`.
pub open spec fn has_parent_component(name: Seq<char>) -> bool {
    exists|i: int| parent_component_at(name, i)
}

/// Whether the name starts at a root: with a separator, or with a drive
/// (any character followed by a colon).
pub open spec fn is_absolute(name: Seq<char>) -> bool {
    ||| name.len() > 0 && is_separator(name[0])
    ||| name.len() >= 2 && name[1] == ':'
}

/// Whether an entry of this name, written below a target directory, stays
/// below it: the name is relative and none of its components is `..`.
pub open spec fn stays_inside(name: Seq<char>) -> bool {
    !is_absolute(name) && !has_parent_component(name)
}

/// Whether the name is that of a directory: it ends with a slash.
pub open spec fn is_directory_name(name: Seq<char>) -> bool {
    name.len() > 0 && name.last() == '/'
}

/// The step that unpacks one entry below `target`.
pub open spec fn op_for(target: Seq<char>, entry: ArchiveEntryView) -> ExtractOpView {
    if is_directory_name(entry.name) {
        ExtractOpView::Directory { path: joined(target, entry.name) }
    } else {
        ExtractOpView::File { path: joined(target, entry.name), contents: entry.contents }
    }
}

/// Where a step of unpacking writes.
pub open spec fn op_path(op: ExtractOpView) -> Seq<char> {
    match op {
        ExtractOpView::Directory { path } => path,
        ExtractOpView::File { path, .. } => path,
    }
}

/// Whether a path lies below `target` by a name that stays inside it.
pub open spec fn lies_below(path: Seq<char>, target: Seq<char>) -> bool {
    exists|name: Seq<char>| stays_inside(name) && path == joined(target, name)
}

/// The index of the first entry that would leave the target, if any does.
pub open spec fn first_unsafe(entries: Seq<ArchiveEntryView>) -> Option<int>
    decreases entries.len(),
{
    if entries.len() == 0 {
        None
    } else {
        match first_unsafe(entries.drop_last()) {
            Some(i) => Some(i),
            None => if stays_inside(entries.last().name) {
                None
            } else {
                Some(entries.len() - 1)
            },
        }
    }
}

/// The plan for unpacking entries below `target`: one step per entry, in
/// their order, unless an entry would leave the target.
pub open spec fn planned_entries(target: Seq<char>, entries: Seq<ArchiveEntryView>) -> Result<
    Seq<ExtractOpView>,
    ExtensionError,
> {
    match first_unsafe(entries) {
        Some(i) => Err(ExtensionError::UnsafeEntryPath(i as usize)),
        None => Ok(entries.map_values(|e: ArchiveEntryView| op_for(target, e))),
    }
}

/// The entries of a listing, where all of them can be read.
pub open spec fn readable(listing: Seq<Option<ArchiveEntryView>>) -> Option<Seq<ArchiveEntryView>> {
    if forall|i: int| 0 <= i < listing.len() ==> (#[trigger] listing[i]) is Some {
        Some(listing.map_values(|e: Option<ArchiveEntryView>| e->0))
    } else {
        None
    }
}

/// The plan for unpacking what was found in an archive's bytes.
pub open spec fn planned(target: Seq<char>, found: Option<Seq<Option<ArchiveEntryView>>>) -> Result<
    Seq<ExtractOpView>,
    ExtensionError,
> {
    match found {
        None => Err(ExtensionError::ArchiveCorrupt),
        Some(listing) => match readable(listing) {
            None => Err(ExtensionError::ArchiveCorrupt),
            Some(entries) => planned_entries(target, entries),
        },
    }
}

/// `first_unsafe` names the least index whose entry leaves the target.
pub proof fn first_unsafe_is_least(entries: Seq<ArchiveEntryView>)
    ensures
        match first_unsafe(entries) {
            Some(k) => {
                &&& 0 <= k < entries.len()
                &&& !stays_inside(entries[k].name)
                &&& forall|j: int| 0 <= j < k ==> stays_inside(#[trigger] entries[j].name)
            },
            None => forall|j: int| 0 <= j < entries.len() ==> stays_inside(#[trigger] entries[j].name),
        },
    decreases entries.len(),
{
    if entries.len() > 0 {
        first_unsafe_is_least(entries.drop_last());
        assert(forall|j: int| 0 <= j < entries.len() - 1 ==> entries.drop_last()[j] == entries[j]);
    }
}

/// Every step of a plan writes below the target, by the name of an entry
/// that stays inside it.
pub proof fn plan_stays_below_the_target(
    target: Seq<char>,
    found: Option<Seq<Option<ArchiveEntryView>>>,
    at: int,
)
    requires
        planned(target, found) is Ok,
        0 <= at < planned(target, found)->Ok_0.len(),
    ensures
        lies_below(op_path(planned(target, found)->Ok_0[at]), target),
{
    let entries = readable(found->Some_0)->Some_0;
    first_unsafe_is_least(entries);
    let name = entries[at].name;
    assert(stays_inside(name));
    assert(op_path(op_for(target, entries[at])) == joined(target, name));
}

/// Whether an entry of this name stays below the directory it is unpacked
/// into.
pub fn is_safe_entry_name(name: &str) -> (r: bool)
    ensures
        r == stays_inside(name@),
{
    let chars = chars_of(name);
    let n = chars.len();
    if n > 0 && (chars[0] == '/' || chars[0] == '\\') {
        return false;
    }
    if n >= 2 && chars[1] == ':' {
        return false;
    }
    let mut i: usize = 0;
    while i < n
        invariant
            n == chars@.len(),
            chars@ == name@,
            i <= n,
            forall|j: int| 0 <= j < i ==> !parent_component_at(name@, j),
        decreases n - i,
    {
        if chars[i] == '.' && i + 1 < n && chars[i + 1] == '.' {
            let starts = i == 0 || chars[i - 1] == '/' || chars[i - 1] == '\\';
            let ends = i + 2 == n || chars[i + 2] == '/' || chars[i + 2] == '\\';
            if starts && ends {
                assert(parent_component_at(name@, i as int));
                return false;
            }
        }
        i = i + 1;
    }
    assert(forall|j: int| !parent_component_at(name@, j));
    true
}

/// Whether the name is that of a directory.
pub fn is_directory_entry(name: &str) -> (r: bool)
    ensures
        r == is_directory_name(name@),
{
    let chars = chars_of(name);
    chars.len() > 0 && chars[chars.len() - 1] == '/'
}

/// The step that unpacks one entry below `target`.
pub fn plan_entry(target: &str, entry: ArchiveEntry) -> (r: ExtractOp)
    ensures
        r@ == op_for(target@, entry@),
{
    let path = join(target, entry.name.as_str());
    if is_directory_entry(entry.name.as_str()) {
        ExtractOp::Directory { path }
    } else {
        ExtractOp::File { path, contents: entry.contents }
    }
}

/// The plan for unpacking entries below `target`. An entry whose name is
/// absolute or has a component `..` is refused, and nothing is planned: the
/// error names the first such entry.
pub fn plan_entries(target: &str, entries: Vec<ArchiveEntry>) -> (r: Result<
    Vec<ExtractOp>,
    ExtensionError,
>)
    ensures
        match r {
            Ok(ops) => Ok::<Seq<ExtractOpView>, ExtensionError>(op_views(ops@)) == planned_entries(
                target@,
                entry_views(entries@),
            ),
            Err(e) => Err::<Seq<ExtractOpView>, ExtensionError>(e) == planned_entries(
                target@,
                entry_views(entries@),
            ),
        },
{
    let ghost all = entry_views(entries@);
    let ghost given = entries@;
    let mut ops: Vec<ExtractOp> = Vec::new();
    let mut index: usize = 0;
    let total = entries.len();
    assert(op_views(ops@) =~= all.take(0).map_values(|e: ArchiveEntryView| op_for(target@, e)));
    for entry in it: entries
        invariant
            it.seq() == given,
            index == it.index(),
            given.len() == total,
            all == entry_views(given),
            first_unsafe(all.take(it.index() as int)) is None,
            op_views(ops@) == all.take(it.index() as int).map_values(
                |e: ArchiveEntryView| op_for(target@, e),
            ),
    {
        let ghost i = it.index() as int;
        proof {
            assert(all.take(i + 1).drop_last() =~= all.take(i));
            assert(all.take(i + 1).last() == entry@);
        }
        if !is_safe_entry_name(entry.name.as_str()) {
            proof {
                first_unsafe_is_least(all.take(i + 1));
                first_unsafe_is_least(all);
                assert(all[i] == all.take(i + 1)[i]);
                assert(forall|j: int| 0 <= j < i ==> all.take(i + 1)[j] == all[j]);
            }
            return Err(ExtensionError::UnsafeEntryPath(index));
        }
        let ghost prior = ops@;
        let op = plan_entry(target, entry);
        ops.push(op);
        proof {
            assert(op_views(ops@) =~= op_views(prior).push(op@));
            assert(all.take(i + 1).map_values(|e: ArchiveEntryView| op_for(target@, e))
                =~= all.take(i).map_values(|e: ArchiveEntryView| op_for(target@, e)).push(
                op_for(target@, entry@),
            ));
        }
        index = index + 1;
    }
    assert(all.take(all.len() as int) == all);
    Ok(ops)
}

/// Every entry of an open archive, or a failure where one cannot be read.
pub(crate) fn read_entries(archive: &mut zip::ZipArchive<std::io::Cursor<Vec<u8>>>) -> (r: Result<
    Vec<ArchiveEntry>,
    ExtensionError,
>)
    ensures
        archive_entries(*final(archive)) == archive_entries(*old(archive)),
        match r {
            Ok(entries) => readable(archive_entries(*old(archive))) == Some(entry_views(entries@)),
            Err(e) => e == ExtensionError::ArchiveCorrupt && readable(
                archive_entries(*old(archive)),
            ) is None,
        },
{
    let ghost listing = archive_entries(*archive);
    let n = entry_count(archive);
    let mut entries: Vec<ArchiveEntry> = Vec::new();
    let mut i: usize = 0;
    while i < n
        invariant
            archive_entries(*archive) == listing,
            archive_entries(*old(archive)) == listing,
            n == listing.len(),
            i <= n,
            entries@.len() == i,
            forall|j: int| 0 <= j < i ==> listing[j] == Some(#[trigger] entries@[j]@),
        decreases n - i,
    {
        match entry_at(archive, i) {
            Some(entry) => {
                entries.push(entry);
            },
            None => {
                assert(listing[i as int] is None);
                return Err(ExtensionError::ArchiveCorrupt);
            },
        }
        i = i + 1;
    }
    proof {
        assert forall|j: int| 0 <= j < listing.len() implies (#[trigger] listing[j]) is Some by {
            assert(listing[j] == Some(entries@[j]@));
        }
        assert(listing.map_values(|e: Option<ArchiveEntryView>| e->0) =~= entry_views(entries@));
    }
    Ok(entries)
}

/// The plan for unpacking an archive, given as bytes, below `target`: one
/// step per entry, in the archive's order. Nothing is planned where the
/// bytes are no archive, an entry cannot be read, or an entry would be
/// written outside the target.
pub fn plan_extraction(target: &str, bytes: Vec<u8>) -> (r: Result<Vec<ExtractOp>, ExtensionError>)
    ensures
        match r {
            Ok(ops) => Ok::<Seq<ExtractOpView>, ExtensionError>(op_views(ops@)) == planned(
                target@,
                unpacked(bytes@),
            ),
            Err(e) => Err::<Seq<ExtractOpView>, ExtensionError>(e) == planned(
                target@,
                unpacked(bytes@),
            ),
        },
{
    match open_archive(bytes) {
        Err(_) => Err(ExtensionError::ArchiveCorrupt),
        Ok(archive) => {
            let mut archive = archive;
            match read_entries(&mut archive) {
                Err(e) => Err(e),
                Ok(entries) => plan_entries(target, entries),
            }
        },
    }
}

} // verus!
