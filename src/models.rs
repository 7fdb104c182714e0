use vstd::prelude::*;

verus! {

/// A user-defined category that MODs can be tagged with.
#[derive(Debug, Clone)]
pub struct Category {
    pub name: String,
    pub color: String,
}

/// The files a MOD contributes: paths relative to its `nativepc` folder,
/// and the top-level entries of its store directory.
#[derive(Debug, Clone)]
pub struct ModFiles {
    pub nativepc: Vec<String>,
    pub root: Vec<String>,
}

/// The per-MOD manifest kept beside the MOD's files.
#[derive(Debug, Clone)]
pub struct ModInfo {
    pub name: String,
    pub nexus_id: Option<String>,
    pub categories: Vec<String>,
    pub enabled: bool,
    pub install_date: String,
    pub file_size: u64,
    pub files: ModFiles,
}

/// One registry entry: a MOD's name, display position and enabled flag.
#[derive(Debug, Clone)]
pub struct ModConfigItem {
    pub name: String,
    pub order: usize,
    pub enabled: bool,
}

/// The global registry record.
#[derive(Debug, Clone)]
pub struct AppConfig {
    pub version: String,
    pub game_directory: String,
    pub data_directory: String,
    pub mods: Vec<ModConfigItem>,
    pub categories: Vec<Category>,
    pub settings: AppSettings,
}

/// User settings stored in the registry.
#[derive(Debug, Clone, Copy, PartialEq, Eq)]
pub struct AppSettings {
    pub auto_detect_conflicts: bool,
    pub show_conflict_warnings: bool,
}

/// One entry of an archive, as listed by inspection.
#[derive(Debug)]
pub struct ArchiveFileNode {
    pub name: String,
    pub path: String,
    pub is_directory: bool,
    pub children: Option<Vec<ArchiveFileNode>>,
}

/// What inspecting an archive reports.
#[derive(Debug)]
pub struct ArchivePreview {
    pub has_native_pc: bool,
    pub native_pc_path: String,
    pub files: Vec<ArchiveFileNode>,
}

/// The outcome of an operation, as handed to the user interface.
#[derive(Debug, Clone)]
pub struct OperationResult {
    pub success: bool,
    pub message: Option<String>,
    pub error: Option<String>,
}

impl OperationResult {
    pub fn success(message: String) -> (r: Self)
        ensures
            r.success,
            r.message == Some(message),
            r.error is None,
    {
        OperationResult { success: true, message: Some(message), error: None }
    }

    pub fn error(error: String) -> (r: Self)
        ensures
            !r.success,
            r.message is None,
            r.error == Some(error),
    {
        OperationResult { success: false, message: None, error: Some(error) }
    }
}

/// The registry schema version written by this library.
pub open spec fn default_version() -> Seq<char> {
    "0.1.0"@
}

/// The three built-in categories, as (name, color) pairs.
pub open spec fn default_categories() -> Seq<(Seq<char>, Seq<char>)> {
    seq![("武器"@, "#FF5733"@), ("装备"@, "#33FF57"@), ("美化"@, "#3357FF"@)]
}

impl Category {
    pub open spec fn pair(self) -> (Seq<char>, Seq<char>) {
        (self.name@, self.color@)
    }
}

impl AppConfig {
    /// The registry that a first run starts from.
    pub open spec fn is_default(self) -> bool {
        &&& self.version@ == default_version()
        &&& self.game_directory@ == Seq::<char>::empty()
        &&& self.data_directory@ == "./data"@
        &&& self.mods@.len() == 0
        &&& self.categories@.map_values(|c: Category| c.pair()) == default_categories()
        &&& self.settings.auto_detect_conflicts
        &&& self.settings.show_conflict_warnings
    }
}

impl Default for AppConfig {
    fn default() -> (r: Self)
        ensures
            r.is_default(),
    {
        let categories = vec![
            Category { name: String::from_str("武器"), color: String::from_str("#FF5733") },
            Category { name: String::from_str("装备"), color: String::from_str("#33FF57") },
            Category { name: String::from_str("美化"), color: String::from_str("#3357FF") },
        ];
        let r = AppConfig {
            version: String::from_str("0.1.0"),
            game_directory: String::new(),
            data_directory: String::from_str("./data"),
            mods: Vec::new(),
            categories,
            settings: AppSettings { auto_detect_conflicts: true, show_conflict_warnings: true },
        };
        assert(r.categories@.map_values(|c: Category| c.pair()) =~= default_categories());
        r
    }
}

} // verus!
