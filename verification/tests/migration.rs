use bmm_lib::database::Database;
use bmm_lib::database::ModRecord;
use bmm_lib::migration::migrate_database;
use bmm_lib::migration::needs_migration;
use bmm_lib::migration::StoreImage;
use bmm_lib::table::Table;

fn settings(pairs: &[(&str, &str)]) -> Table<String> {
    let mut table = Table::new();
    for (key, value) in pairs {
        table.insert(key.to_string(), value.to_string());
    }
    table
}

fn record(path: &str, dependencies: &str, version: Option<&str>) -> ModRecord {
    ModRecord {
        path: path.to_string(),
        dependencies: dependencies.to_string(),
        current_version: version.map(|v| v.to_string()),
    }
}

fn old_store() -> StoreImage {
    let mut mods = Table::new();
    mods.insert("A".to_string(), record("/a", "[]", Some("1.0")));
    mods.insert("B".to_string(), record("/b", "[\"A\"]", None));
    StoreImage {
        settings: Some(settings(&[
            ("db_version", "1.0"),
            ("installation_path", "/games/Balatro"),
            ("security_warning_acknowledged", "yes"),
        ])),
        installed_mods: Some(mods),
    }
}

fn snapshot(db: Database) -> StoreImage {
    StoreImage { settings: Some(db.settings), installed_mods: Some(db.installed_mods) }
}

#[test]
fn store_without_settings_needs_migration() {
    let image = StoreImage { settings: None, installed_mods: None };
    assert!(needs_migration(&image));
}

#[test]
fn store_without_version_needs_migration() {
    let image = StoreImage {
        settings: Some(settings(&[("installation_path", "/x")])),
        installed_mods: None,
    };
    assert!(needs_migration(&image));
}

#[test]
fn store_of_another_version_needs_migration() {
    assert!(needs_migration(&old_store()));
}

#[test]
fn store_of_the_current_version_is_current() {
    let image = StoreImage {
        settings: Some(settings(&[("db_version", "1.1")])),
        installed_mods: None,
    };
    assert!(!needs_migration(&image));
}

#[test]
fn migration_carries_settings_and_mods() {
    let db = migrate_database(&old_store());
    assert_eq!(db.get_setting("db_version", ""), "1.1");
    assert_eq!(db.get_setting("installation_path", ""), "/games/Balatro");
    assert_eq!(db.get_setting("security_warning_acknowledged", ""), "yes");
    assert_eq!(db.settings.len(), 3);
    let rows = db.installed_mods.entries();
    assert_eq!(rows.len(), 2);
    assert_eq!(rows[0], ("A".to_string(), record("/a", "[]", Some("1.0"))));
    assert_eq!(rows[1], ("B".to_string(), record("/b", "[\"A\"]", None)));
}

#[test]
fn migration_of_an_empty_file_gives_a_fresh_store() {
    let db = migrate_database(&StoreImage { settings: None, installed_mods: None });
    assert_eq!(db.get_setting("db_version", ""), "1.1");
    assert_eq!(db.get_setting("security_warning_acknowledged", ""), "no");
    assert_eq!(db.settings.len(), 2);
    assert_eq!(db.installed_mods.len(), 0);
}

#[test]
fn second_check_reports_current() {
    let db = Database::new(Some(old_store()));
    let again = snapshot(db);
    assert!(!needs_migration(&again));
    let db = Database::new(Some(again));
    assert_eq!(db.get_setting("installation_path", ""), "/games/Balatro");
    assert_eq!(db.get_installed_mods().unwrap().len(), 2);
    assert_eq!(db.get_dependents("A").unwrap(), vec!["B".to_string()]);
}

#[test]
fn fresh_store_is_current() {
    let db = Database::new(None);
    assert!(!needs_migration(&snapshot(db)));
}

#[test]
fn current_store_is_taken_as_it_is() {
    let mut mods = Table::new();
    mods.insert("A".to_string(), record("/a", "[]", Some("1.0")));
    let image = StoreImage {
        settings: Some(settings(&[("custom", "x"), ("db_version", "1.1")])),
        installed_mods: Some(mods),
    };
    let db = Database::new(Some(image));
    assert_eq!(db.settings.len(), 2);
    assert_eq!(db.get_setting("custom", ""), "x");
    assert_eq!(db.get_setting("security_warning_acknowledged", "absent"), "absent");
    assert_eq!(db.installed_mods.len(), 1);
}
