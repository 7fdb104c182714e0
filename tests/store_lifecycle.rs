use mod_manager::archive::extract_zip_archive;
use mod_manager::lifecycle::{copy_plan, delete_plan, nativepc_path, record_install, removal_plan};
use mod_manager::models::AppConfig;
use mod_manager::registry::ModState;
use mod_manager::models::{ModFiles, ModInfo};
use mod_manager::store::{
    calculate_dir_size, collect_mod_files, is_reserved_store_name, mod_info_dated, new_mod_info,
    store_root_entries,
};
use std::collections::BTreeMap;
use std::io::Write;

fn strings(v: &[&str]) -> Vec<String> {
    v.iter().map(|s| s.to_string()).collect()
}

fn build_zip(entries: &[(&str, &[u8])]) -> Vec<u8> {
    let mut writer = zip::ZipWriter::new(std::io::Cursor::new(Vec::new()));
    let options = zip::write::SimpleFileOptions::default()
        .compression_method(zip::CompressionMethod::Stored);
    for (name, data) in entries {
        writer.start_file(*name, options).unwrap();
        writer.write_all(data).unwrap();
    }
    writer.finish().unwrap().into_inner()
}

#[test]
fn root_entries_skip_reserved_names() {
    let names = strings(&["readme.txt", "nativepc", "mod-info.json", "extra", "NativePC"]);
    assert_eq!(store_root_entries(&names), strings(&["readme.txt", "extra", "NativePC"]));
    assert!(is_reserved_store_name("nativepc"));
    assert!(is_reserved_store_name("mod-info.json"));
    assert!(!is_reserved_store_name("mod-info.json.bak"));
    assert!(store_root_entries(&vec![]).is_empty());
}

#[test]
fn manifest_files_match_extracted_archive() {
    let bytes = build_zip(&[
        ("nativepc/pl/f_equip/a.dds", b"a"),
        ("nativepc/b.dds", b"b"),
        ("readme.txt", b"r"),
        ("tools/run.bat", b"t"),
    ]);
    let entries = extract_zip_archive(&bytes).unwrap();
    let mut nativepc_files = Vec::new();
    let mut top_level: Vec<String> = Vec::new();
    for e in &entries {
        if let Some(rest) = e.path.strip_prefix("nativepc/") {
            nativepc_files.push(rest.to_string());
        }
        let top = e.path.split('/').next().unwrap().to_string();
        if !top_level.contains(&top) {
            top_level.push(top);
        }
    }
    top_level.push("mod-info.json".to_string());
    let files = collect_mod_files(nativepc_files, &top_level);
    assert_eq!(files.nativepc, strings(&["pl/f_equip/a.dds", "b.dds"]));
    assert_eq!(files.root, strings(&["readme.txt", "tools"]));
}

#[test]
fn directory_size_sums_files() {
    assert_eq!(calculate_dir_size(&vec![]), Some(0));
    assert_eq!(calculate_dir_size(&vec![10, 20, 12]), Some(42));
    assert_eq!(calculate_dir_size(&vec![u64::MAX, 0]), Some(u64::MAX));
    assert_eq!(calculate_dir_size(&vec![u64::MAX, 1]), None);
}

#[test]
fn new_manifest_starts_disabled() {
    let files = ModFiles { nativepc: strings(&["a.dds"]), root: vec![] };
    let info = new_mod_info("m".to_string(), Some("123".to_string()), strings(&["武器"]), 7, files);
    assert!(!info.enabled);
    assert_eq!(info.name, "m");
    assert_eq!(info.nexus_id.as_deref(), Some("123"));
    assert_eq!(info.file_size, 7);
    assert!(!info.install_date.is_empty());
    let dated = mod_info_dated(
        "d".to_string(),
        None,
        vec![],
        "2024-05-01T10:00:00+00:00".to_string(),
        0,
        ModFiles { nativepc: vec![], root: vec![] },
    );
    assert_eq!(dated.install_date, "2024-05-01T10:00:00+00:00");
    assert!(!dated.enabled);
}

#[test]
fn nativepc_paths_are_prefixed() {
    assert_eq!(nativepc_path("pl/a.dds"), "nativepc/pl/a.dds");
    assert_eq!(nativepc_path(""), "nativepc/");
}

#[test]
fn removal_plan_matches_copy_plan() {
    let nativepc_files = strings(&["pl/a.dds", "b.dds"]);
    let top = strings(&["nativepc", "readme.txt", "mod-info.json", "extra"]);
    let copied = copy_plan(&nativepc_files, &top);
    assert_eq!(copied, strings(&["nativepc/pl/a.dds", "nativepc/b.dds", "readme.txt", "extra"]));
    let files = collect_mod_files(nativepc_files.clone(), &top);
    assert_eq!(removal_plan(&files), copied);
}

#[test]
fn enable_then_disable_restores_game_directory() {
    let mut game: BTreeMap<String, Vec<u8>> = BTreeMap::new();
    game.insert("nativepc/base.dds".to_string(), b"base".to_vec());
    game.insert("game.exe".to_string(), b"exe".to_vec());
    let before = game.clone();
    let nativepc_files = strings(&["pl/a.dds"]);
    let top = strings(&["nativepc", "readme.txt", "mod-info.json"]);
    for p in copy_plan(&nativepc_files, &top) {
        game.insert(p, b"mod".to_vec());
    }
    assert_eq!(game.len(), 4);
    let files = collect_mod_files(nativepc_files, &top);
    for p in removal_plan(&files) {
        game.remove(&p);
    }
    assert_eq!(game, before);
}

#[test]
fn disable_skips_missing_files() {
    let mut game: BTreeMap<String, Vec<u8>> = BTreeMap::new();
    game.insert("readme.txt".to_string(), b"r".to_vec());
    game.insert("keep.txt".to_string(), b"k".to_vec());
    let files = ModFiles { nativepc: strings(&["gone.dds"]), root: strings(&["readme.txt"]) };
    for p in removal_plan(&files) {
        game.remove(&p);
    }
    assert_eq!(game.len(), 1);
    assert!(game.contains_key("keep.txt"));
}

#[test]
fn delete_removes_recorded_files_only_when_enabled() {
    let info = ModInfo {
        name: "m".to_string(),
        nexus_id: None,
        categories: vec![],
        enabled: true,
        install_date: String::new(),
        file_size: 0,
        files: ModFiles { nativepc: strings(&["x.dds"]), root: strings(&["y.txt"]) },
    };
    assert_eq!(delete_plan(&info), strings(&["nativepc/x.dds", "y.txt"]));
    let disabled = ModInfo { enabled: false, ..info };
    assert!(delete_plan(&disabled).is_empty());
}

#[test]
fn install_records_manifest_and_entry() {
    let mut config = AppConfig::default();
    let files = ModFiles { nativepc: strings(&["a.dds"]), root: strings(&["readme.txt"]) };
    let first = record_install(&mut config, "one".to_string(), None, vec![], 10, files.clone());
    let second = record_install(&mut config, "two".to_string(), Some("77".to_string()), vec![], 20, files);
    assert!(!first.enabled && !second.enabled);
    assert_eq!(first.files.root, strings(&["readme.txt"]));
    assert_eq!(second.file_size, 20);
    assert_eq!(config.mods.len(), 2);
    assert_eq!(config.mods[0].order, 1);
    assert_eq!(config.mods[1].order, 2);
    assert_eq!(config.mod_state("two"), ModState::Disabled);
    assert_eq!(config.categories.len(), 3);
}
