use vstd::prelude::*;
use crate::archive::string_views;
use crate::models::{ModFiles, ModInfo};
use crate::text::same_text;

verus! {

/// Names at the top of a store directory that are not MOD payload: the
/// `nativepc` folder and the manifest file.
pub open spec fn is_reserved_name(name: Seq<char>) -> bool {
    name == "nativepc"@ || name == "mod-info.json"@
}

/// The top-level entries of a store directory that belong to the MOD's
/// root files: all but the reserved names, in listing order.
pub open spec fn store_entries(names: Seq<Seq<char>>) -> Seq<Seq<char>>
    decreases names.len(),
{
    if names.len() == 0 {
        names
    } else {
        let rest = store_entries(names.drop_last());
        if is_reserved_name(names.last()) {
            rest
        } else {
            rest.push(names.last())
        }
    }
}

/// Whether a top-level store name is reserved.
pub fn is_reserved_store_name(name: &str) -> (r: bool)
    ensures
        r == is_reserved_name(name@),
{
    same_text(name, "nativepc") || same_text(name, "mod-info.json")
}

/// The top-level entries of a store directory that are MOD root files.
pub fn store_root_entries(names: &Vec<String>) -> (r: Vec<String>)
    ensures
        string_views(r@) == store_entries(string_views(names@)),
{
    let ghost ns = string_views(names@);
    let mut kept: Vec<String> = Vec::new();
    let mut i: usize = 0;
    while i < names.len()
        invariant
            ns == string_views(names@),
            i <= names@.len(),
            string_views(kept@) == store_entries(ns.subrange(0, i as int)),
        decreases names@.len() - i,
    {
        proof {
            assert(ns.subrange(0, i + 1).drop_last() =~= ns.subrange(0, i as int));
        }
        let name: &str = names[i].as_str();
        if !is_reserved_store_name(name) {
            kept.push(String::from_str(name));
            assert(string_views(kept@) =~= store_entries(ns.subrange(0, i as int)).push(name@));
        }
        i = i + 1;
    }
    proof {
        assert(ns.subrange(0, ns.len() as int) =~= ns);
    }
    kept
}

/// Builds a MOD's file manifest from its store directory: the files under
/// `nativepc` (relative to it, as the recursive walk listed them) and the
/// top-level entries other than `nativepc` and the manifest file.
pub fn collect_mod_files(nativepc_files: Vec<String>, top_level: &Vec<String>) -> (r: ModFiles)
    ensures
        r.nativepc == nativepc_files,
        string_views(r.root@) == store_entries(string_views(top_level@)),
{
    ModFiles { nativepc: nativepc_files, root: store_root_entries(top_level) }
}

/// The sum of a sequence of sizes.
pub open spec fn total_of(sizes: Seq<u64>) -> int
    decreases sizes.len(),
{
    if sizes.len() == 0 {
        0
    } else {
        total_of(sizes.drop_last()) + sizes.last()
    }
}

/// The total size of a directory from the sizes of the files under it;
/// `None` when the total does not fit in 64 bits.
pub fn calculate_dir_size(sizes: &Vec<u64>) -> (r: Option<u64>)
    ensures
        match r {
            Some(t) => t == total_of(sizes@),
            None => total_of(sizes@) > u64::MAX,
        },
{
    let mut total: u64 = 0;
    let mut i: usize = 0;
    while i < sizes.len()
        invariant
            i <= sizes@.len(),
            total == total_of(sizes@.subrange(0, i as int)),
        decreases sizes@.len() - i,
    {
        proof {
            assert(sizes@.subrange(0, i + 1).drop_last() =~= sizes@.subrange(0, i as int));
        }
        if sizes[i] > u64::MAX - total {
            proof {
                lemma_total_grows(sizes@, i as int + 1);
            }
            return None;
        }
        total = total + sizes[i];
        i = i + 1;
    }
    proof {
        assert(sizes@.subrange(0, sizes@.len() as int) =~= sizes@);
    }
    Some(total)
}

/// A prefix never sums to more than the whole sequence.
proof fn lemma_total_grows(sizes: Seq<u64>, n: int)
    requires
        0 <= n <= sizes.len(),
    ensures
        total_of(sizes.subrange(0, n)) <= total_of(sizes),
    decreases sizes.len() - n,
{
    if n < sizes.len() {
        lemma_total_grows(sizes, n + 1);
        assert(sizes.subrange(0, n + 1).drop_last() =~= sizes.subrange(0, n));
    } else {
        assert(sizes.subrange(0, n) =~= sizes);
    }
}

/// Relies on chrono::Utc::now and DateTime::to_rfc3339: the current time as
/// RFC 3339 text.
#[verifier::external_body]
fn now_rfc3339() -> (r: String) {
    chrono::Utc::now().to_rfc3339()
}

/// The manifest of a freshly installed MOD, dated `install_date`: it starts
/// disabled.
pub fn mod_info_dated(
    name: String,
    nexus_id: Option<String>,
    categories: Vec<String>,
    install_date: String,
    file_size: u64,
    files: ModFiles,
) -> (r: ModInfo)
    ensures
        r == (ModInfo { name, nexus_id, categories, enabled: false, install_date, file_size, files }),
{
    ModInfo { name, nexus_id, categories, enabled: false, install_date, file_size, files }
}

/// The manifest of a MOD installed now: it starts disabled, and its date is
/// the current time.
pub fn new_mod_info(
    name: String,
    nexus_id: Option<String>,
    categories: Vec<String>,
    file_size: u64,
    files: ModFiles,
) -> (r: ModInfo)
    ensures
        r.name == name,
        r.nexus_id == nexus_id,
        r.categories == categories,
        !r.enabled,
        r.file_size == file_size,
        r.files == files,
{
    let install_date = now_rfc3339();
    mod_info_dated(name, nexus_id, categories, install_date, file_size, files)
}

} // verus!
