use vstd::prelude::*;
use crate::error::ModError;
use crate::models::{ArchiveFileNode, ArchivePreview};
use crate::text::{equals_ci, equals_ci_exec, matches_ci_at, matches_ci_at_exec, same_text};

verus! {

#[verifier::external_type_specification]
#[verifier::external_body]
pub struct ExZipError(zip::result::ZipError);

/// The name of the game's asset-override folder.
pub open spec fn nativepc_word() -> Seq<char> {
    seq!['n', 'a', 't', 'i', 'v', 'e', 'p', 'c']
}

pub open spec fn is_separator(c: char) -> bool {
    c == '/' || c == '\\'
}

/// A case-insensitive `nativepc` starts at `at` and a path separator follows it.
pub open spec fn is_marker_at(s: Seq<char>, at: int) -> bool {
    &&& matches_ci_at(s, nativepc_word(), at)
    &&& at + 8 < s.len()
    &&& is_separator(s[at + 8])
}

/// The first position from `at` on where a marker starts.
pub open spec fn first_marker_from(s: Seq<char>, at: int) -> Option<int>
    decreases s.len() - at,
{
    if at < 0 || at + 8 >= s.len() {
        None
    } else if is_marker_at(s, at) {
        Some(at)
    } else {
        first_marker_from(s, at + 1)
    }
}

pub open spec fn first_marker(s: Seq<char>) -> Option<int> {
    first_marker_from(s, 0)
}

/// Where the first `nativepc` folder marker starts in an entry path.
pub fn find_nativepc_marker(path: &str) -> (r: Option<usize>)
    ensures
        match r {
            Some(i) => {
                &&& first_marker(path@) == Some(i as int)
                &&& is_marker_at(path@, i as int)
                &&& path@.len() <= usize::MAX
            },
            None => first_marker(path@) is None,
        },
{
    let word = "nativepc";
    proof {
        reveal_strlit("nativepc");
        assert(word@ =~= nativepc_word());
    }
    let n = path.unicode_len();
    let mut i: usize = 0;
    while i < n && n - i > 8
        invariant
            n == path@.len(),
            word@ == nativepc_word(),
            i <= n,
            first_marker(path@) == first_marker_from(path@, i as int),
        decreases n - i,
    {
        let hit = matches_ci_at_exec(path, word, i);
        if hit {
            let c = path.get_char(i + 8);
            if c == '/' || c == '\\' {
                assert(is_marker_at(path@, i as int));
                return Some(i);
            }
            assert(!is_marker_at(path@, i as int));
        } else {
            assert(!is_marker_at(path@, i as int));
        }
        assert(first_marker_from(path@, i as int) == first_marker_from(path@, i + 1));
        i = i + 1;
    }
    None
}

/// End of a path once its trailing slashes are dropped.
pub open spec fn trim_end(p: Seq<char>, n: int) -> int
    decreases n,
{
    if 0 < n <= p.len() && p[n - 1] == '/' {
        trim_end(p, n - 1)
    } else {
        n
    }
}

/// Start of the path segment that ends at `n`.
pub open spec fn segment_start(p: Seq<char>, n: int) -> int
    decreases n,
{
    if 0 < n <= p.len() && p[n - 1] != '/' {
        segment_start(p, n - 1)
    } else {
        n
    }
}

/// The final segment of an entry path; the whole path when that segment is
/// empty or `..`.
pub open spec fn entry_name_of(p: Seq<char>) -> Seq<char> {
    let e = trim_end(p, p.len() as int);
    let b = segment_start(p, e);
    let seg = p.subrange(b, e);
    if seg.len() == 0 || seg == seq!['.', '.'] {
        p
    } else {
        seg
    }
}

/// The final segment of an entry path.
pub fn entry_name(path: &str) -> (r: String)
    ensures
        r@ == entry_name_of(path@),
{
    let n = path.unicode_len();
    let mut end: usize = n;
    while end > 0 && path.get_char(end - 1) == '/'
        invariant
            n == path@.len(),
            end <= n,
            trim_end(path@, n as int) == trim_end(path@, end as int),
        decreases end,
    {
        end = end - 1;
    }
    let mut start: usize = end;
    while start > 0 && path.get_char(start - 1) != '/'
        invariant
            n == path@.len(),
            start <= end <= n,
            trim_end(path@, n as int) == end,
            segment_start(path@, end as int) == segment_start(path@, start as int),
        decreases start,
    {
        start = start - 1;
    }
    let seg = path.substring_char(start, end);
    if end == start {
        return String::from_str(path);
    }
    if end - start == 2 && seg.get_char(0) == '.' && seg.get_char(1) == '.' {
        assert(seg@ =~= seq!['.', '.']);
        return String::from_str(path);
    }
    String::from_str(seg)
}

/// Whether an archive entry path names a directory: it ends with a separator.
pub open spec fn ends_with_separator(p: Seq<char>) -> bool {
    p.len() > 0 && is_separator(p[p.len() - 1])
}

pub fn is_directory_entry(path: &str) -> (r: bool)
    ensures
        r == ends_with_separator(path@),
{
    let n = path.unicode_len();
    if n == 0 {
        return false;
    }
    let c = path.get_char(n - 1);
    c == '/' || c == '\\'
}

pub open spec fn string_views(v: Seq<String>) -> Seq<Seq<char>> {
    v.map_values(|s: String| s@)
}

/// The first path, from index `k` on, that holds a marker.
pub open spec fn first_marked_from(paths: Seq<Seq<char>>, k: int) -> Option<int>
    decreases paths.len() - k,
{
    if k < 0 || k >= paths.len() {
        None
    } else if first_marker(paths[k]) is Some {
        Some(k)
    } else {
        first_marked_from(paths, k + 1)
    }
}

/// The reported `nativepc` path: the first marked entry's path up to and
/// including the matched word, with the casing the archive stores.
pub open spec fn native_pc_path_of(paths: Seq<Seq<char>>) -> Seq<char> {
    match first_marked_from(paths, 0) {
        Some(k) => paths[k].subrange(0, first_marker(paths[k])->0 + 8),
        None => Seq::<char>::empty(),
    }
}

pub open spec fn node_lists(node: ArchiveFileNode, path: Seq<char>) -> bool {
    &&& node.path@ == path
    &&& node.name@ == entry_name_of(path)
    &&& node.is_directory == ends_with_separator(path)
    &&& node.children is None
}

/// `p` is the inspection report of an archive whose entries have these paths,
/// in this order.
pub open spec fn previews(p: ArchivePreview, paths: Seq<Seq<char>>) -> bool {
    &&& p.has_native_pc == (first_marked_from(paths, 0) is Some)
    &&& p.native_pc_path@ == native_pc_path_of(paths)
    &&& p.files@.len() == paths.len()
    &&& forall|i: int| 0 <= i < paths.len() ==> node_lists(#[trigger] p.files@[i], paths[i])
}

/// Builds the inspection report of an archive from its entry paths.
pub fn inspect_entries(paths: &Vec<String>) -> (r: ArchivePreview)
    ensures
        previews(r, string_views(paths@)),
{
    let ghost ps = string_views(paths@);
    let mut has_native_pc = false;
    let mut native_pc_path = String::new();
    let mut files: Vec<ArchiveFileNode> = Vec::new();
    let mut i: usize = 0;
    while i < paths.len()
        invariant
            ps == string_views(paths@),
            i <= paths@.len(),
            files@.len() == i,
            forall|j: int| 0 <= j < i ==> node_lists(#[trigger] files@[j], ps[j]),
            !has_native_pc ==> first_marked_from(ps, 0) == first_marked_from(ps, i as int),
            !has_native_pc ==> native_pc_path@ == Seq::<char>::empty(),
            has_native_pc ==> first_marked_from(ps, 0) is Some,
            has_native_pc ==> native_pc_path@ == native_pc_path_of(ps),
        decreases paths@.len() - i,
    {
        let path: &str = paths[i].as_str();
        assert(path@ == ps[i as int]);
        if !has_native_pc {
            match find_nativepc_marker(path) {
                Some(at) => {
                    has_native_pc = true;
                    native_pc_path = String::from_str(path.substring_char(0, at + 8));
                },
                None => {},
            }
        }
        let node = ArchiveFileNode {
            name: entry_name(path),
            path: String::from_str(path),
            is_directory: is_directory_entry(path),
            children: None,
        };
        files.push(node);
        i = i + 1;
    }
    ArchivePreview { has_native_pc, native_pc_path, files }
}

/// How many entries the ZIP archive held in these bytes lists, if its
/// central directory can be read.
pub uninterp spec fn zip_entry_count_of(archive: Seq<u8>) -> Option<nat>;

/// The stored path of an entry of the ZIP archive held in these bytes, if
/// that entry can be opened.
pub uninterp spec fn zip_entry_name_of(archive: Seq<u8>, index: nat) -> Option<Seq<char>>;

/// The decompressed bytes of an entry of the ZIP archive held in these
/// bytes, if that entry can be opened and read.
pub uninterp spec fn zip_entry_data_of(archive: Seq<u8>, index: nat) -> Option<Seq<u8>>;

/// Relies on zip::ZipArchive::new and ZipArchive::len: the number of entries
/// of the central directory, or the error that reading it gave.
#[verifier::external_body]
fn zip_entry_count(archive: &Vec<u8>) -> (r: Result<usize, zip::result::ZipError>)
    ensures
        match r {
            Ok(n) => zip_entry_count_of(archive@) == Some(n as nat),
            Err(_) => zip_entry_count_of(archive@) is None,
        },
{
    let reader = zip::ZipArchive::new(std::io::Cursor::new(archive.as_slice()))?;
    Ok(reader.len())
}

/// Relies on zip::ZipArchive::by_index and ZipFile::name: the path of an
/// entry as stored in the archive.
#[verifier::external_body]
fn zip_entry_name(archive: &Vec<u8>, index: usize) -> (r: Result<String, zip::result::ZipError>)
    ensures
        match r {
            Ok(name) => zip_entry_name_of(archive@, index as nat) == Some(name@),
            Err(_) => zip_entry_name_of(archive@, index as nat) is None,
        },
{
    let mut reader = zip::ZipArchive::new(std::io::Cursor::new(archive.as_slice()))?;
    let entry = reader.by_index(index)?;
    Ok(entry.name().to_string())
}

/// Relies on zip::ZipArchive::by_index and the ZipFile reader: the
/// decompressed bytes of an entry.
#[verifier::external_body]
fn zip_entry_data(archive: &Vec<u8>, index: usize) -> (r: Result<Vec<u8>, zip::result::ZipError>)
    ensures
        match r {
            Ok(data) => zip_entry_data_of(archive@, index as nat) == Some(data@),
            Err(_) => zip_entry_data_of(archive@, index as nat) is None,
        },
{
    let mut reader = zip::ZipArchive::new(std::io::Cursor::new(archive.as_slice()))?;
    let mut entry = reader.by_index(index)?;
    let mut data: Vec<u8> = Vec::new();
    std::io::Read::read_to_end(&mut entry, &mut data)?;
    Ok(data)
}

/// The entry paths of the archive in enumeration order, when its directory
/// and every entry can be read.
pub open spec fn zip_listing(archive: Seq<u8>) -> Option<Seq<Seq<char>>> {
    match zip_entry_count_of(archive) {
        Some(n) => if forall|i: nat| i < n ==> (#[trigger] zip_entry_name_of(archive, i)) is Some {
            Some(Seq::new(n, |i: int| zip_entry_name_of(archive, i as nat)->0))
        } else {
            None
        },
        None => None,
    }
}

/// Reads the entry paths of a ZIP archive, in their stored order.
pub fn archive_entry_paths(archive: &Vec<u8>) -> (r: Result<Vec<String>, ModError>)
    ensures
        match r {
            Ok(paths) => zip_listing(archive@) == Some(string_views(paths@)),
            Err(e) => zip_listing(archive@) is None && e is ArchiveUnreadable,
        },
{
    let n = match zip_entry_count(archive) {
        Ok(n) => n,
        Err(_) => return Err(ModError::ArchiveUnreadable),
    };
    let mut paths: Vec<String> = Vec::new();
    let mut i: usize = 0;
    while i < n
        invariant
            zip_entry_count_of(archive@) == Some(n as nat),
            i <= n,
            paths@.len() == i,
            forall|j: int| 0 <= j < i ==> zip_entry_name_of(archive@, j as nat) == Some(
                #[trigger] paths@[j]@,
            ),
        decreases n - i,
    {
        match zip_entry_name(archive, i) {
            Ok(name) => paths.push(name),
            Err(_) => {
                assert(zip_entry_name_of(archive@, i as nat) is None);
                return Err(ModError::ArchiveUnreadable);
            },
        }
        i = i + 1;
    }
    proof {
        assert forall|j: nat| j < n implies (#[trigger] zip_entry_name_of(archive@, j)) is Some by {
            assert(zip_entry_name_of(archive@, j as int as nat) == Some(paths@[j as int]@));
        }
        assert(string_views(paths@) =~= Seq::new(
            n as nat,
            |j: int| zip_entry_name_of(archive@, j as nat)->0,
        ));
    }
    Ok(paths)
}

/// Inspects a ZIP archive: lists every entry in its stored order and finds
/// the first `nativepc` folder, matched without regard to case.
pub fn preview_zip_archive(archive: &Vec<u8>) -> (r: Result<ArchivePreview, ModError>)
    ensures
        match r {
            Ok(p) => zip_listing(archive@) is Some && previews(p, zip_listing(archive@)->0),
            Err(e) => zip_listing(archive@) is None && e is ArchiveUnreadable,
        },
{
    let paths = archive_entry_paths(archive)?;
    Ok(inspect_entries(&paths))
}

/// One archive entry ready to be written under the destination directory.
#[derive(Debug, Clone)]
pub struct ExtractedEntry {
    pub path: String,
    pub is_directory: bool,
    pub data: Vec<u8>,
}

/// The archive can be extracted: its listing reads and every file entry
/// decompresses.
pub open spec fn extractable(archive: Seq<u8>) -> bool {
    &&& zip_listing(archive) is Some
    &&& forall|i: int|
        0 <= i < zip_listing(archive)->0.len() && !ends_with_separator(zip_listing(archive)->0[i])
            ==> (#[trigger] zip_entry_data_of(archive, i as nat)) is Some
}

pub open spec fn extracts(e: ExtractedEntry, archive: Seq<u8>, i: int) -> bool {
    let path = zip_listing(archive)->0[i];
    &&& e.path@ == path
    &&& e.is_directory == ends_with_separator(path)
    &&& e.is_directory ==> e.data@.len() == 0
    &&& !e.is_directory ==> Some(e.data@) == zip_entry_data_of(archive, i as nat)
}

/// Decodes every entry of a ZIP archive, in stored order: directories to be
/// created and files with their bytes. Writing them, and then normalising
/// the `nativepc` folder name, completes an extraction.
pub fn extract_zip_archive(archive: &Vec<u8>) -> (r: Result<Vec<ExtractedEntry>, ModError>)
    ensures
        match r {
            Ok(entries) => {
                &&& extractable(archive@)
                &&& entries@.len() == zip_listing(archive@)->0.len()
                &&& forall|i: int|
                    0 <= i < entries@.len() ==> extracts(#[trigger] entries@[i], archive@, i)
            },
            Err(e) => !extractable(archive@) && e is ArchiveUnreadable,
        },
{
    let paths = archive_entry_paths(archive)?;
    let ghost ps = string_views(paths@);
    let mut entries: Vec<ExtractedEntry> = Vec::new();
    let mut i: usize = 0;
    while i < paths.len()
        invariant
            zip_listing(archive@) == Some(ps),
            ps == string_views(paths@),
            i <= paths@.len(),
            entries@.len() == i,
            forall|j: int| 0 <= j < i ==> extracts(#[trigger] entries@[j], archive@, j),
            forall|j: int|
                0 <= j < i && !ends_with_separator(ps[j]) ==> (#[trigger] zip_entry_data_of(
                    archive@,
                    j as nat,
                )) is Some,
        decreases paths@.len() - i,
    {
        let path: &str = paths[i].as_str();
        assert(path@ == ps[i as int]);
        let is_directory = is_directory_entry(path);
        let data = if is_directory {
            Vec::new()
        } else {
            match zip_entry_data(archive, i) {
                Ok(d) => d,
                Err(_) => {
                    assert(zip_entry_data_of(archive@, i as int as nat) is None);
                    assert(!ends_with_separator(zip_listing(archive@)->0[i as int]));
                    assert(ps.len() == paths@.len());
                    assert(!extractable(archive@)) by {
                        let k: int = i as int;
                        if extractable(archive@) {
                            assert(0 <= k < zip_listing(archive@)->0.len());
                            assert(zip_entry_data_of(archive@, k as nat) is Some);
                        }
                    }
                    return Err(ModError::ArchiveUnreadable);
                },
            }
        };
        entries.push(ExtractedEntry { path: String::from_str(path), is_directory, data });
        i = i + 1;
    }
    Ok(entries)
}

/// An immediate child of a directory, as listed by the file system.
#[derive(Debug, Clone)]
pub struct DirEntryInfo {
    pub name: String,
    pub is_directory: bool,
}

/// A directory whose name is `nativepc` in any casing.
pub open spec fn is_nativepc_dir(e: DirEntryInfo) -> bool {
    e.is_directory && equals_ci(e.name@, nativepc_word())
}

/// `i` is the first `nativepc` directory among the entries.
pub open spec fn is_first_nativepc_dir(entries: Seq<DirEntryInfo>, i: int) -> bool {
    &&& 0 <= i < entries.len()
    &&& is_nativepc_dir(entries[i])
    &&& forall|j: int| 0 <= j < i ==> !is_nativepc_dir(#[trigger] entries[j])
}

/// Finds the first child directory named `nativepc`, in any casing.
pub fn find_nativepc_folder(entries: &Vec<DirEntryInfo>) -> (r: Option<usize>)
    ensures
        match r {
            Some(i) => is_first_nativepc_dir(entries@, i as int),
            None => forall|j: int| 0 <= j < entries@.len() ==> !is_nativepc_dir(#[trigger] entries@[j]),
        },
{
    let word = "nativepc";
    proof {
        reveal_strlit("nativepc");
        assert(word@ =~= nativepc_word());
    }
    let mut i: usize = 0;
    while i < entries.len()
        invariant
            word@ == nativepc_word(),
            i <= entries@.len(),
            forall|j: int| 0 <= j < i ==> !is_nativepc_dir(#[trigger] entries@[j]),
        decreases entries@.len() - i,
    {
        let e = &entries[i];
        if e.is_directory && equals_ci_exec(e.name.as_str(), word) {
            return Some(i);
        }
        i = i + 1;
    }
    None
}

/// Decides the `nativepc` normalisation of an extraction destination: the
/// index of the child directory to rename to lower-case `nativepc`, or
/// `None` when there is none or it is already lower case.
pub fn normalize_nativepc_folder(entries: &Vec<DirEntryInfo>) -> (r: Option<usize>)
    ensures
        match r {
            Some(i) => is_first_nativepc_dir(entries@, i as int) && entries@[i as int].name@
                != nativepc_word(),
            None => forall|i: int|
                is_first_nativepc_dir(entries@, i) ==> entries@[i].name@ == nativepc_word(),
        },
{
    let word = "nativepc";
    proof {
        reveal_strlit("nativepc");
        assert(word@ =~= nativepc_word());
    }
    match find_nativepc_folder(entries) {
        Some(i) => {
            if same_text(entries[i].name.as_str(), word) {
                None
            } else {
                Some(i)
            }
        },
        None => None,
    }
}

} // verus!
