use bmm_lib::table::Table;

#[test]
fn table_keeps_insertion_order_and_unique_keys() {
    let mut table: Table<String> = Table::new();
    assert_eq!(table.len(), 0);
    table.insert("a".to_string(), "1".to_string());
    table.insert("b".to_string(), "2".to_string());
    table.insert("a".to_string(), "3".to_string());
    assert_eq!(table.len(), 2);
    assert_eq!(
        table.entries(),
        &vec![("b".to_string(), "2".to_string()), ("a".to_string(), "3".to_string())]
    );
    assert_eq!(table.get("a"), Some(&"3".to_string()));
    assert_eq!(table.get("c"), None);
    assert_eq!(table.position("a"), Some(1));
    assert_eq!(table.position("c"), None);
    assert!(table.contains_key("b"));
    assert!(!table.contains_key("c"));
}

#[test]
fn table_replaces_in_place_and_removes() {
    let mut table: Table<String> = Table::new();
    table.insert("a".to_string(), "1".to_string());
    table.insert("b".to_string(), "2".to_string());
    assert!(table.replace("a", "9".to_string()));
    assert!(!table.replace("z", "9".to_string()));
    assert_eq!(
        table.entries(),
        &vec![("a".to_string(), "9".to_string()), ("b".to_string(), "2".to_string())]
    );
    table.remove("a");
    table.remove("zz");
    assert_eq!(table.entries(), &vec![("b".to_string(), "2".to_string())]);
}
