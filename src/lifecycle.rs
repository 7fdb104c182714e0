use vstd::prelude::*;
use crate::archive::string_views;
use crate::models::{AppConfig, ModConfigItem, ModFiles, ModInfo};
use crate::registry::{
    has_entry, in_sync, lemma_install_transition, new_entry, same_but_mods, state_of, without_entry,
    ModState,
};
use crate::store::{new_mod_info, store_entries, store_root_entries};

verus! {

/// A path inside the game directory's `nativepc` folder.
pub open spec fn in_nativepc(p: Seq<char>) -> Seq<char> {
    "nativepc/"@ + p
}

/// Paths relative to the game directory: the `nativepc` files first, then
/// the root entries.
pub open spec fn game_paths(nativepc: Seq<Seq<char>>, root: Seq<Seq<char>>) -> Seq<Seq<char>> {
    nativepc.map_values(|p: Seq<char>| in_nativepc(p)) + root
}

/// The path of a `nativepc` file relative to the game (or store) directory.
pub fn nativepc_path(p: &str) -> (r: String)
    ensures
        r@ == in_nativepc(p@),
{
    String::from_str("nativepc/").concat(p)
}

fn game_path_list(nativepc: &Vec<String>, root: &Vec<String>) -> (r: Vec<String>)
    ensures
        string_views(r@) == game_paths(string_views(nativepc@), string_views(root@)),
{
    let ghost ns = string_views(nativepc@);
    let ghost rs = string_views(root@);
    let mut out: Vec<String> = Vec::new();
    let mut i: usize = 0;
    while i < nativepc.len()
        invariant
            ns == string_views(nativepc@),
            i <= nativepc@.len(),
            string_views(out@) =~= ns.subrange(0, i as int).map_values(|p: Seq<char>| in_nativepc(p)),
        decreases nativepc@.len() - i,
    {
        assert(nativepc@[i as int]@ == ns[i as int]);
        let ghost before = out@;
        let item = nativepc_path(nativepc[i].as_str());
        out.push(item);
        proof {
            assert(string_views(out@) =~= string_views(before).push(item@));
            assert(ns.subrange(0, i + 1).map_values(|p: Seq<char>| in_nativepc(p)) =~= ns.subrange(
                0,
                i as int,
            ).map_values(|p: Seq<char>| in_nativepc(p)).push(in_nativepc(ns[i as int])));
        }
        i = i + 1;
    }
    assert(ns.subrange(0, nativepc@.len() as int) =~= ns);
    let mut k: usize = 0;
    while k < root.len()
        invariant
            ns == string_views(nativepc@),
            rs == string_views(root@),
            k <= root@.len(),
            string_views(out@) =~= ns.map_values(|p: Seq<char>| in_nativepc(p)) + rs.subrange(0, k as int),
        decreases root@.len() - k,
    {
        assert(root@[k as int]@ == rs[k as int]);
        let ghost before = out@;
        let item = String::from_str(root[k].as_str());
        out.push(item);
        proof {
            assert(string_views(out@) =~= string_views(before).push(item@));
            assert(rs.subrange(0, k + 1) =~= rs.subrange(0, k as int).push(rs[k as int]));
        }
        k = k + 1;
    }
    assert(ns.subrange(0, ns.len() as int) =~= ns);
    assert(rs.subrange(0, rs.len() as int) =~= rs);
    out
}

/// What enabling copies from the store into the game directory, as paths
/// relative to both: every `nativepc` file, then every root entry of the
/// store (all top-level entries but `nativepc` and the manifest file).
pub fn copy_plan(nativepc_files: &Vec<String>, top_level: &Vec<String>) -> (r: Vec<String>)
    ensures
        string_views(r@) == game_paths(
            string_views(nativepc_files@),
            store_entries(string_views(top_level@)),
        ),
{
    let root = store_root_entries(top_level);
    game_path_list(nativepc_files, &root)
}

/// What disabling removes from the game directory: exactly the files that
/// the manifest records, `nativepc` files first.
pub fn removal_plan(files: &ModFiles) -> (r: Vec<String>)
    ensures
        string_views(r@) == game_paths(string_views(files.nativepc@), string_views(files.root@)),
{
    game_path_list(&files.nativepc, &files.root)
}

/// What deleting a MOD removes from the game directory: its recorded files
/// when it is enabled, nothing otherwise.
pub fn delete_plan(info: &ModInfo) -> (r: Vec<String>)
    ensures
        info.enabled ==> string_views(r@) == game_paths(
            string_views(info.files.nativepc@),
            string_views(info.files.root@),
        ),
        !info.enabled ==> r@.len() == 0,
{
    if info.enabled {
        removal_plan(&info.files)
    } else {
        Vec::new()
    }
}

/// Records a freshly extracted MOD: its manifest, dated now and disabled,
/// and its registry entry, appended with the next order.
pub fn record_install(
    config: &mut AppConfig,
    name: String,
    nexus_id: Option<String>,
    categories: Vec<String>,
    file_size: u64,
    files: ModFiles,
) -> (r: ModInfo)
    requires
        old(config).mods@.len() < usize::MAX,
    ensures
        r.name == name,
        r.nexus_id == nexus_id,
        r.categories == categories,
        !r.enabled,
        r.file_size == file_size,
        r.files == files,
        final(config).mods@ == old(config).mods@.push(new_entry(name, old(config).mods@.len())),
        same_but_mods(*final(config), *old(config)),
        state_of(old(config).mods@, name@) == ModState::Absent ==> in_sync(final(config).mods@, r),
{
    let entry_name = name.clone();
    let info = new_mod_info(name, nexus_id, categories, file_size, files);
    config.register_mod(entry_name);
    proof {
        if state_of(old(config).mods@, info.name@) == ModState::Absent {
            lemma_install_transition(old(config).mods@, info.name);
        }
    }
    info
}

/// The game directory, as relative paths and contents, after copying the
/// planned paths from the store; same-named paths are overwritten.
pub open spec fn after_copy(
    game: Map<Seq<char>, Seq<u8>>,
    store: Map<Seq<char>, Seq<u8>>,
    plan: Seq<Seq<char>>,
) -> Map<Seq<char>, Seq<u8>> {
    Map::new(
        |p: Seq<char>| game.contains_key(p) || plan.contains(p),
        |p: Seq<char>|
            if plan.contains(p) {
                store[p]
            } else {
                game[p]
            },
    )
}

/// The game directory after removing the planned paths; a path that is
/// already missing is skipped.
pub open spec fn after_remove(game: Map<Seq<char>, Seq<u8>>, plan: Seq<Seq<char>>) -> Map<
    Seq<char>,
    Seq<u8>,
> {
    game.remove_keys(plan.to_set())
}

/// Enabling a MOD and then disabling it with the manifest collected from the
/// same store leaves the game directory as it was, provided none of the
/// copied paths was there before.
pub proof fn lemma_enable_disable_round_trip(
    game: Map<Seq<char>, Seq<u8>>,
    store: Map<Seq<char>, Seq<u8>>,
    nativepc_files: Seq<Seq<char>>,
    top_level: Seq<Seq<char>>,
    files: ModFiles,
)
    requires
        string_views(files.nativepc@) == nativepc_files,
        string_views(files.root@) == store_entries(top_level),
        forall|p: Seq<char>|
            game_paths(nativepc_files, store_entries(top_level)).contains(p) ==> !game.contains_key(p),
    ensures
        after_remove(
            after_copy(game, store, game_paths(nativepc_files, store_entries(top_level))),
            game_paths(string_views(files.nativepc@), string_views(files.root@)),
        ) == game,
{
    let plan = game_paths(nativepc_files, store_entries(top_level));
    let back = after_remove(after_copy(game, store, plan), plan);
    assert forall|p: Seq<char>| #[trigger] back.contains_key(p) == game.contains_key(p) by {
        if plan.contains(p) {
            assert(plan.to_set().contains(p));
        } else {
            assert(!plan.to_set().contains(p));
        }
    }
    assert(back =~= game);
}

/// Removing a plan from the game directory never depends on which planned
/// paths are present: afterwards none of them is, and every other path is
/// untouched.
pub proof fn lemma_removal_tolerates_missing(game: Map<Seq<char>, Seq<u8>>, plan: Seq<Seq<char>>)
    ensures
        forall|p: Seq<char>| plan.contains(p) ==> !(#[trigger] after_remove(game, plan).contains_key(p)),
        forall|p: Seq<char>|
            !plan.contains(p) && game.contains_key(p) ==> (#[trigger] after_remove(game, plan).contains_key(p)
                && after_remove(game, plan)[p] == game[p]),
{
    assert forall|p: Seq<char>| plan.contains(p) implies !(#[trigger] after_remove(game, plan).contains_key(p)) by {
        assert(plan.to_set().contains(p));
    }
    assert forall|p: Seq<char>|
        !plan.contains(p) && game.contains_key(p) implies (#[trigger] after_remove(game, plan).contains_key(p)
            && after_remove(game, plan)[p] == game[p]) by {
        assert(!plan.to_set().contains(p));
    }
}

/// After a delete no entry of that name is left, so a second delete of the
/// same name finds nothing.
pub proof fn lemma_deleted_entry_gone(mods: Seq<ModConfigItem>, name: Seq<char>)
    ensures
        !has_entry(without_entry(mods, name), name),
    decreases mods.len(),
{
    if mods.len() > 0 {
        lemma_deleted_entry_gone(mods.drop_last(), name);
        let rest = without_entry(mods.drop_last(), name);
        if mods.last().name@ != name {
            assert forall|i: int| 0 <= i < rest.push(mods.last()).len() implies (#[trigger] rest.push(
                mods.last(),
            )[i]).name@ != name by {
                if i < rest.len() {
                    assert(rest.push(mods.last())[i] == rest[i]);
                }
            }
        }
    }
}

/// Deleting takes a MOD, in either installed state, to absent.
pub proof fn lemma_delete_transition(mods: Seq<ModConfigItem>, name: Seq<char>)
    ensures
        state_of(without_entry(mods, name), name) == ModState::Absent,
{
    lemma_deleted_entry_gone(mods, name);
}

/// A delete keeps every other entry exactly, order included: entries are
/// never renumbered.
pub proof fn lemma_delete_keeps_others(mods: Seq<ModConfigItem>, name: Seq<char>, m: ModConfigItem)
    requires
        mods.contains(m),
        m.name@ != name,
    ensures
        without_entry(mods, name).contains(m),
    decreases mods.len(),
{
    let rest = without_entry(mods.drop_last(), name);
    if mods.last() == m {
        assert(rest.push(mods.last())[rest.len() as int] == m);
    } else {
        let i = choose|i: int| 0 <= i < mods.len() && mods[i] == m;
        assert(mods.drop_last()[i] == m);
        lemma_delete_keeps_others(mods.drop_last(), name, m);
        let j = choose|j: int| 0 <= j < rest.len() && rest[j] == m;
        if mods.last().name@ != name {
            assert(rest.push(mods.last())[j] == m);
        }
    }
}

/// A delete keeps only entries of the registry, none with the deleted name.
pub proof fn lemma_delete_adds_nothing(mods: Seq<ModConfigItem>, name: Seq<char>, m: ModConfigItem)
    requires
        without_entry(mods, name).contains(m),
    ensures
        mods.contains(m),
        m.name@ != name,
    decreases mods.len(),
{
    let rest = without_entry(mods.drop_last(), name);
    let j = choose|j: int| 0 <= j < without_entry(mods, name).len() && without_entry(mods, name)[j] == m;
    if mods.last().name@ != name && j == rest.len() {
        assert(mods[mods.len() - 1] == m);
    } else {
        if mods.last().name@ != name {
            assert(rest[j] == m);
        }
        assert(rest.contains(m));
        lemma_delete_adds_nothing(mods.drop_last(), name, m);
        let i = choose|i: int| 0 <= i < mods.drop_last().len() && mods.drop_last()[i] == m;
        assert(mods[i] == m);
    }
}

} // verus!
