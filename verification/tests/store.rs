use bmm_lib::database::Database;
use bmm_lib::database::InstalledMod;
use bmm_lib::database::ModRecord;
use bmm_lib::errors::AppError;

fn names(items: &[&str]) -> Vec<String> {
    items.iter().map(|s| s.to_string()).collect()
}

#[test]
fn add_then_list_then_remove() {
    let mut db = Database::new(None);
    db.add_installed_mod("Steamodded", "/mods/steamodded", &[], Some("1.0".to_string()))
        .unwrap();
    let mods = db.get_installed_mods().unwrap();
    assert_eq!(
        mods,
        vec![InstalledMod {
            name: "Steamodded".to_string(),
            path: "/mods/steamodded".to_string(),
            dependencies: vec![],
            current_version: Some("1.0".to_string()),
        }]
    );
    db.remove_installed_mod("Steamodded");
    assert_eq!(db.get_installed_mods().unwrap(), vec![]);
}

#[test]
fn dependents_are_found_by_name() {
    let mut db = Database::new(None);
    db.add_installed_mod("A", "/a", &[], None).unwrap();
    db.add_installed_mod("B", "/b", &names(&["A"]), None).unwrap();
    db.add_installed_mod("C", "/c", &names(&["A", "B"]), None).unwrap();
    assert_eq!(db.get_dependents("A").unwrap(), names(&["B", "C"]));
    assert_eq!(db.get_dependents("B").unwrap(), names(&["C"]));
    assert_eq!(db.get_dependents("C").unwrap(), names(&[]));
}

#[test]
fn dependents_match_after_trimming_quotes() {
    let mut db = Database::new(None);
    db.add_installed_mod("B", "/b", &names(&["\"A\""]), None).unwrap();
    db.add_installed_mod("D", "/d", &names(&["A\"x"]), None).unwrap();
    assert_eq!(db.get_dependents("A").unwrap(), names(&["B"]));
    assert_eq!(db.get_dependents("\"A\"").unwrap(), names(&[]));
    assert_eq!(db.get_dependents("A\"x").unwrap(), names(&["D"]));
}

#[test]
fn dependencies_are_stored_as_json_text() {
    let mut db = Database::new(None);
    db.add_installed_mod("C", "/c", &names(&["A", "B"]), None).unwrap();
    let record = db.installed_mods.get("C").unwrap();
    assert_eq!(record.dependencies, "[\"A\",\"B\"]");
    assert_eq!(record.current_version, None);
}

#[test]
fn mod_installed_without_a_version_has_none() {
    let mut db = Database::new(None);
    assert_eq!(db.add_installed_mod("A", "/mods/a", &[], None), Ok(()));
    assert_eq!(db.get_mod_details("A").unwrap().current_version, None);
    assert_eq!(db.add_installed_mod("A", "/mods/a", &[], Some(String::new())), Ok(()));
    assert_eq!(db.get_mod_details("A").unwrap().current_version, Some(String::new()));
}

#[test]
fn missing_mod_is_invalid_state() {
    let db = Database::new(None);
    assert_eq!(
        db.get_mod_details("Nope"),
        Err(AppError::InvalidState("Mod Nope not found".to_string()))
    );
}

#[test]
fn unreadable_dependencies_are_a_serialization_error() {
    let mut db = Database::new(None);
    db.insert_record(
        "Broken",
        ModRecord {
            path: "/broken".to_string(),
            dependencies: "not json".to_string(),
            current_version: None,
        },
    );
    assert!(matches!(
        db.get_mod_details("Broken"),
        Err(AppError::Serialization { .. })
    ));
    assert!(matches!(
        db.get_installed_mods(),
        Err(AppError::Serialization { .. })
    ));
    assert!(matches!(
        db.get_dependents("A"),
        Err(AppError::Serialization { .. })
    ));
}

#[test]
fn adding_a_name_twice_replaces_the_row() {
    let mut db = Database::new(None);
    db.add_installed_mod("A", "/old", &[], Some("1".to_string())).unwrap();
    db.add_installed_mod("B", "/b", &[], Some("1".to_string())).unwrap();
    db.add_installed_mod("A", "/new", &names(&["B"]), Some("2".to_string())).unwrap();
    let mods = db.get_installed_mods().unwrap();
    assert_eq!(mods.len(), 2);
    assert_eq!(mods[0].name, "B");
    assert_eq!(
        mods[1],
        InstalledMod {
            name: "A".to_string(),
            path: "/new".to_string(),
            dependencies: names(&["B"]),
            current_version: Some("2".to_string()),
        }
    );
    assert_eq!(db.get_mod_details("A").unwrap(), mods[1]);
}

#[test]
fn removing_an_absent_mod_changes_nothing() {
    let mut db = Database::new(None);
    db.add_installed_mod("A", "/a", &[], None).unwrap();
    db.remove_installed_mod("B");
    assert_eq!(db.get_installed_mods().unwrap().len(), 1);
}

#[test]
fn installed_version_is_read_and_updated_in_place() {
    let mut db = Database::new(None);
    db.add_installed_mod("A", "/a", &[], Some("1.0".to_string())).unwrap();
    db.add_installed_mod("B", "/b", &[], None).unwrap();
    assert_eq!(db.get_last_installed_version("A"), Ok("1.0".to_string()));
    assert_eq!(db.get_last_installed_version("B"), Ok(String::new()));
    assert_eq!(db.get_last_installed_version("Z"), Ok(String::new()));
    assert_eq!(db.set_last_installed_version("A", "2.0"), Ok(()));
    assert_eq!(db.get_last_installed_version("A"), Ok("2.0".to_string()));
    let mods = db.get_installed_mods().unwrap();
    assert_eq!(mods[0].name, "A");
    assert_eq!(mods[0].path, "/a");
    assert_eq!(mods[1].name, "B");
    assert_eq!(
        db.set_last_installed_version("Z", "1"),
        Err(AppError::InvalidState("Mod Z not found".to_string()))
    );
    assert_eq!(db.get_installed_mods().unwrap().len(), 2);
}

#[test]
fn version_reads_empty_where_none_is_recorded() {
    let mut db = Database::new(None);
    db.insert_record(
        "Old",
        ModRecord {
            path: "/old".to_string(),
            dependencies: "[]".to_string(),
            current_version: None,
        },
    );
    assert_eq!(db.get_last_installed_version("Old"), Ok(String::new()));
    assert_eq!(db.get_mod_details("Old").unwrap().current_version, None);
}

#[test]
fn settings_default_and_upsert() {
    let mut db = Database::new(None);
    assert_eq!(db.get_setting("unknown", "fallback"), "fallback");
    assert_eq!(db.get_setting("db_version", ""), "1.1");
    assert_eq!(db.get_setting("security_warning_acknowledged", ""), "no");
    db.set_setting("theme", "dark");
    db.set_setting("theme", "light");
    assert_eq!(db.get_setting("theme", ""), "light");
    assert_eq!(db.settings.len(), 3);
}

#[test]
fn last_fetched_round_trips() {
    let mut db = Database::new(None);
    assert_eq!(db.get_last_fetched(), Ok(0));
    db.set_last_fetched(1_700_000_000);
    assert_eq!(db.get_setting("last_fetched", ""), "1700000000");
    assert_eq!(db.get_last_fetched(), Ok(1_700_000_000));
    db.set_last_fetched(u64::MAX);
    assert_eq!(db.get_last_fetched(), Ok(u64::MAX));
    db.set_setting("last_fetched", "soon");
    assert_eq!(
        db.get_last_fetched(),
        Err(AppError::InvalidState("Invalid timestamp format".to_string()))
    );
}

#[test]
fn installation_path_is_set_and_removed() {
    let mut db = Database::new(None);
    assert_eq!(db.get_installation_path(), None);
    db.set_installation_path("/games/Balatro");
    assert_eq!(db.get_installation_path(), Some("/games/Balatro".to_string()));
    db.remove_installation_path();
    assert_eq!(db.get_installation_path(), None);
}

#[test]
fn flags_read_false_until_set() {
    let mut db = Database::new(None);
    assert!(!db.get_background_enabled());
    assert!(!db.is_lovely_console_enabled());
    assert!(!db.is_security_warning_acknowledged());
    db.set_background_enabled(true);
    db.set_lovely_console_status(true);
    db.set_security_warning_acknowledged(true);
    assert!(db.get_background_enabled());
    assert!(db.is_lovely_console_enabled());
    assert!(db.is_security_warning_acknowledged());
    assert_eq!(db.get_setting("background_enabled", ""), "enabled");
    assert_eq!(db.get_setting("lovely_console", ""), "enabled");
    assert_eq!(db.get_setting("security_warning_acknowledged", ""), "yes");
    db.set_background_enabled(false);
    db.set_lovely_console_status(false);
    db.set_security_warning_acknowledged(false);
    assert!(!db.get_background_enabled());
    assert!(!db.is_lovely_console_enabled());
    assert!(!db.is_security_warning_acknowledged());
    assert_eq!(db.get_setting("background_enabled", ""), "disabled");
    assert_eq!(db.get_setting("lovely_console", ""), "disabled");
    assert_eq!(db.get_setting("security_warning_acknowledged", ""), "no");
}
