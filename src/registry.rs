use vstd::prelude::*;
use crate::error::ModError;
use crate::models::{AppConfig, ModConfigItem, ModInfo};
use crate::text::same_text;

verus! {

/// Some entry of the list has this name.
pub open spec fn has_entry(mods: Seq<ModConfigItem>, name: Seq<char>) -> bool {
    exists|i: int| 0 <= i < mods.len() && (#[trigger] mods[i]).name@ == name
}

/// `i` is the first entry with this name.
pub open spec fn is_first_entry(mods: Seq<ModConfigItem>, name: Seq<char>, i: int) -> bool {
    &&& 0 <= i < mods.len()
    &&& mods[i].name@ == name
    &&& forall|j: int| 0 <= j < i ==> (#[trigger] mods[j]).name@ != name
}

/// The list with every entry of this name taken out, the others kept in order.
pub open spec fn without_entry(mods: Seq<ModConfigItem>, name: Seq<char>) -> Seq<ModConfigItem>
    decreases mods.len(),
{
    if mods.len() == 0 {
        mods
    } else {
        let rest = without_entry(mods.drop_last(), name);
        if mods.last().name@ == name {
            rest
        } else {
            rest.push(mods.last())
        }
    }
}

/// The entry that installing a MOD named `name` appends to a list of `len` entries.
pub open spec fn new_entry(name: String, len: nat) -> ModConfigItem {
    ModConfigItem { name, order: (len + 1) as usize, enabled: false }
}

/// The entry with its enabled flag set.
pub open spec fn with_enabled(m: ModConfigItem, enabled: bool) -> ModConfigItem {
    ModConfigItem { enabled, ..m }
}

/// The two records agree on everything but the MOD list.
pub open spec fn same_but_mods(a: AppConfig, b: AppConfig) -> bool {
    &&& a.version == b.version
    &&& a.game_directory == b.game_directory
    &&& a.data_directory == b.data_directory
    &&& a.categories == b.categories
    &&& a.settings == b.settings
}

/// The registry's MOD list after setting the enabled flag of the first entry
/// named `name`; unchanged when there is none.
pub open spec fn mods_with_enabled(mods: Seq<ModConfigItem>, name: Seq<char>, enabled: bool) -> Seq<
    ModConfigItem,
> {
    if has_entry(mods, name) {
        let i = choose|i: int| is_first_entry(mods, name, i);
        mods.update(i, with_enabled(mods[i], enabled))
    } else {
        mods
    }
}

pub proof fn lemma_first_entry_unique(mods: Seq<ModConfigItem>, name: Seq<char>, i: int, k: int)
    requires
        is_first_entry(mods, name, i),
        is_first_entry(mods, name, k),
    ensures
        i == k,
{
    if i < k {
        assert(mods[i].name@ != name);
    } else if k < i {
        assert(mods[k].name@ != name);
    }
}

impl AppConfig {
    /// The index of the registry entry named `name`.
    pub fn find_mod(&self, name: &str) -> (r: Option<usize>)
        ensures
            match r {
                Some(i) => is_first_entry(self.mods@, name@, i as int),
                None => !has_entry(self.mods@, name@),
            },
    {
        let mut i: usize = 0;
        while i < self.mods.len()
            invariant
                i <= self.mods@.len(),
                forall|j: int| 0 <= j < i ==> (#[trigger] self.mods@[j]).name@ != name@,
            decreases self.mods@.len() - i,
        {
            if same_text(self.mods[i].name.as_str(), name) {
                return Some(i);
            }
            i = i + 1;
        }
        None
    }

    /// Whether a MOD of this name is registered.
    pub fn has_mod(&self, name: &str) -> (r: bool)
        ensures
            r == has_entry(self.mods@, name@),
    {
        self.find_mod(name).is_some()
    }

    /// Appends the entry of a newly installed MOD: its order is the number of
    /// entries plus one, and it starts disabled.
    pub fn register_mod(&mut self, name: String)
        requires
            old(self).mods@.len() < usize::MAX,
        ensures
            final(self).mods@ == old(self).mods@.push(new_entry(name, old(self).mods@.len())),
            same_but_mods(*final(self), *old(self)),
    {
        let order = self.mods.len() + 1;
        self.mods.push(ModConfigItem { name, order, enabled: false });
    }

    /// Sets the enabled flag of the entry named `name`; returns whether there
    /// was one.
    pub fn set_mod_enabled(&mut self, name: &str, enabled: bool) -> (found: bool)
        ensures
            found == has_entry(old(self).mods@, name@),
            final(self).mods@ == mods_with_enabled(old(self).mods@, name@, enabled),
            same_but_mods(*final(self), *old(self)),
    {
        match self.find_mod(name) {
            Some(i) => {
                let item = ModConfigItem {
                    name: self.mods[i].name.clone(),
                    order: self.mods[i].order,
                    enabled,
                };
                self.mods.set(i, item);
                proof {
                    let k = choose|k: int| is_first_entry(old(self).mods@, name@, k);
                    lemma_first_entry_unique(old(self).mods@, name@, i as int, k);
                }
                true
            },
            None => false,
        }
    }

    /// Removes every entry named `name`, keeping the others and their orders.
    pub fn remove_mod(&mut self, name: &str)
        ensures
            final(self).mods@ == without_entry(old(self).mods@, name@),
            same_but_mods(*final(self), *old(self)),
    {
        let mut kept: Vec<ModConfigItem> = Vec::new();
        let mut i: usize = 0;
        while i < self.mods.len()
            invariant
                i <= self.mods@.len(),
                kept@ == without_entry(self.mods@.subrange(0, i as int), name@),
            decreases self.mods@.len() - i,
        {
            proof {
                assert(self.mods@.subrange(0, i + 1).drop_last() =~= self.mods@.subrange(0, i as int));
            }
            if !same_text(self.mods[i].name.as_str(), name) {
                let m = &self.mods[i];
                kept.push(ModConfigItem { name: m.name.clone(), order: m.order, enabled: m.enabled });
            }
            i = i + 1;
        }
        proof {
            assert(self.mods@.subrange(0, self.mods@.len() as int) =~= self.mods@);
        }
        self.mods = kept;
    }
}

/// `r` is what loading yields when `stored` is on disk: the registry, and
/// whether it must be written back.
pub open spec fn loads(stored: Option<AppConfig>, r: (AppConfig, bool)) -> bool {
    match stored {
        Some(c) => r.0 == c && !r.1,
        None => r.0.is_default() && r.1,
    }
}

/// The registry a load yields, and whether it must be written back: the
/// stored record as it is, or the default registry when none is stored yet.
pub fn load_or_default(stored: Option<AppConfig>) -> (r: (AppConfig, bool))
    ensures
        loads(stored, r),
{
    match stored {
        Some(c) => (c, false),
        None => (AppConfig::default(), true),
    }
}

/// A first load with nothing stored yields the default registry and writes
/// it back; a second load then yields that same record, with nothing left
/// to write.
pub proof fn lemma_default_load_persists(first: (AppConfig, bool), second: (AppConfig, bool))
    requires
        loads(None, first),
        loads(Some(first.0), second),
    ensures
        first.0.is_default(),
        first.1,
        second.0 == first.0,
        !second.1,
{
}

/// Loading a stored registry, default or modified, never applies defaults
/// on top of it.
pub proof fn lemma_load_keeps_stored(stored: AppConfig, r: (AppConfig, bool))
    requires
        loads(Some(stored), r),
    ensures
        r.0 == stored,
        !r.1,
{
}

/// Where a MOD stands in its lifecycle, as the registry records it.
#[derive(Debug, Clone, Copy, PartialEq, Eq)]
pub enum ModState {
    Absent,
    Disabled,
    Enabled,
}

/// The lifecycle state of the MOD named `name`, from its first registry entry.
pub open spec fn state_of(mods: Seq<ModConfigItem>, name: Seq<char>) -> ModState {
    if has_entry(mods, name) {
        let i = choose|i: int| is_first_entry(mods, name, i);
        if mods[i].enabled {
            ModState::Enabled
        } else {
            ModState::Disabled
        }
    } else {
        ModState::Absent
    }
}

/// A first entry exists whenever some entry has the name.
pub proof fn lemma_first_entry_exists(mods: Seq<ModConfigItem>, name: Seq<char>)
    requires
        has_entry(mods, name),
    ensures
        exists|i: int| is_first_entry(mods, name, i),
    decreases mods.len(),
{
    if mods[0].name@ == name {
        assert(is_first_entry(mods, name, 0));
    } else {
        let tail = mods.drop_first();
        let k = choose|k: int| 0 <= k < mods.len() && (#[trigger] mods[k]).name@ == name;
        assert(tail[k - 1] == mods[k]);
        lemma_first_entry_exists(tail, name);
        let j = choose|j: int| is_first_entry(tail, name, j);
        assert forall|l: int| 0 <= l < j + 1 implies (#[trigger] mods[l]).name@ != name by {
            if l > 0 {
                assert(mods[l] == tail[l - 1]);
            }
        }
        assert(is_first_entry(mods, name, j + 1));
    }
}

impl AppConfig {
    /// The lifecycle state of the MOD named `name`.
    pub fn mod_state(&self, name: &str) -> (r: ModState)
        ensures
            r == state_of(self.mods@, name@),
    {
        match self.find_mod(name) {
            Some(i) => {
                proof {
                    let k = choose|k: int| is_first_entry(self.mods@, name@, k);
                    lemma_first_entry_unique(self.mods@, name@, i as int, k);
                }
                if self.mods[i].enabled {
                    ModState::Enabled
                } else {
                    ModState::Disabled
                }
            },
            None => ModState::Absent,
        }
    }
}

/// Installing takes a MOD from absent to installed and disabled.
pub proof fn lemma_install_transition(mods: Seq<ModConfigItem>, name: String)
    requires
        state_of(mods, name@) == ModState::Absent,
    ensures
        state_of(mods.push(new_entry(name, mods.len())), name@) == ModState::Disabled,
{
    let after = mods.push(new_entry(name, mods.len()));
    assert(is_first_entry(after, name@, mods.len() as int)) by {
        assert forall|j: int| 0 <= j < mods.len() implies (#[trigger] after[j]).name@ != name@ by {
            assert(after[j] == mods[j]);
        }
    }
    let k = choose|k: int| is_first_entry(after, name@, k);
    lemma_first_entry_unique(after, name@, mods.len() as int, k);
}

/// Recording the enabled flag of an installed MOD moves it to the matching
/// state; an absent MOD stays absent.
pub proof fn lemma_toggle_transition(mods: Seq<ModConfigItem>, name: Seq<char>, enabled: bool)
    ensures
        state_of(mods, name) == ModState::Absent ==> state_of(mods_with_enabled(mods, name, enabled), name)
            == ModState::Absent,
        state_of(mods, name) != ModState::Absent ==> state_of(mods_with_enabled(mods, name, enabled), name)
            == (if enabled {
            ModState::Enabled
        } else {
            ModState::Disabled
        }),
{
    if has_entry(mods, name) {
        lemma_first_entry_exists(mods, name);
        let i = choose|i: int| is_first_entry(mods, name, i);
        let after = mods_with_enabled(mods, name, enabled);
        assert(after == mods.update(i, with_enabled(mods[i], enabled)));
        assert(is_first_entry(after, name, i)) by {
            assert forall|j: int| 0 <= j < i implies (#[trigger] after[j]).name@ != name by {
                assert(after[j] == mods[j]);
            }
        }
        let k = choose|k: int| is_first_entry(after, name, k);
        lemma_first_entry_unique(after, name, i, k);
    }
}

/// The manifest and the registry agree on the MOD's enabled flag.
pub open spec fn in_sync(mods: Seq<ModConfigItem>, info: ModInfo) -> bool {
    state_of(mods, info.name@) == if info.enabled {
        ModState::Enabled
    } else {
        ModState::Disabled
    }
}

/// Recording the enabled flag of an installed MOD leaves its manifest and
/// its registry entry in agreement.
pub proof fn lemma_record_keeps_sync(mods: Seq<ModConfigItem>, info: ModInfo, enabled: bool)
    requires
        has_entry(mods, info.name@),
    ensures
        in_sync(mods_with_enabled(mods, info.name@, enabled), ModInfo { enabled, ..info }),
{
    lemma_first_entry_exists(mods, info.name@);
    lemma_toggle_transition(mods, info.name@, enabled);
}

/// Checks the preconditions of an install: no registry entry with this
/// name, and no leftover store directory.
pub fn check_install(config: &AppConfig, name: &str, store_dir_exists: bool) -> (r: Result<(), ModError>)
    ensures
        has_entry(config.mods@, name@) ==> (r matches Err(ModError::NameAlreadyExists { name: n }) && n@ == name@),
        !has_entry(config.mods@, name@) && store_dir_exists ==> (r matches Err(ModError::StoreDirExists { name: n }) && n@ == name@),
        !has_entry(config.mods@, name@) && !store_dir_exists ==> r is Ok,
{
    if config.has_mod(name) {
        return Err(ModError::NameAlreadyExists { name: String::from_str(name) });
    }
    if store_dir_exists {
        return Err(ModError::StoreDirExists { name: String::from_str(name) });
    }
    Ok(())
}

/// Checks the preconditions of a delete: a registry entry and a store
/// directory for this name.
pub fn check_delete(config: &AppConfig, name: &str, store_dir_exists: bool) -> (r: Result<(), ModError>)
    ensures
        (has_entry(config.mods@, name@) && store_dir_exists) ==> r is Ok,
        !(has_entry(config.mods@, name@) && store_dir_exists) ==> (r matches Err(ModError::ModDirNotFound { name: n }) && n@ == name@),
{
    if config.has_mod(name) && store_dir_exists {
        Ok(())
    } else {
        Err(ModError::ModDirNotFound { name: String::from_str(name) })
    }
}

/// Checks the precondition of an enable: the store directory exists.
pub fn check_enable(name: &str, store_dir_exists: bool) -> (r: Result<(), ModError>)
    ensures
        store_dir_exists ==> r is Ok,
        !store_dir_exists ==> (r matches Err(ModError::ModDirNotFound { name: n }) && n@ == name@),
{
    if store_dir_exists {
        Ok(())
    } else {
        Err(ModError::ModDirNotFound { name: String::from_str(name) })
    }
}

/// Records a MOD's enabled state in its manifest and in its registry entry.
pub fn record_enabled(config: &mut AppConfig, info: &mut ModInfo, enabled: bool)
    ensures
        final(info).enabled == enabled,
        *final(info) == (ModInfo { enabled, ..*old(info) }),
        final(config).mods@ == mods_with_enabled(old(config).mods@, old(info).name@, enabled),
        same_but_mods(*final(config), *old(config)),
{
    info.enabled = enabled;
    config.set_mod_enabled(info.name.as_str(), enabled);
}

} // verus!
