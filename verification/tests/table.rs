use lenso_secrets::table::TextTable;

fn table(rows: &[(&str, &str)]) -> TextTable {
    let mut table = TextTable::new();
    for (name, value) in rows {
        assert!(table.insert((*name).to_owned(), (*value).to_owned()));
    }
    table
}

#[test]
fn rows_stand_in_the_order_of_their_names() {
    let names = ["b", "a/b", "a", "\u{e9}", "a-b", "Z", ""];
    let rows: Vec<(&str, &str)> = names.iter().map(|name| (*name, "x")).collect();
    let table = table(&rows);
    let mut sorted: Vec<String> = names.iter().map(|name| (*name).to_owned()).collect();
    sorted.sort();
    let found: Vec<String> = (0..table.len()).map(|i| table.name_at(i).clone()).collect();
    assert_eq!(found, sorted);
}

#[test]
fn the_order_of_insertion_does_not_matter() {
    let forward = table(&[("a", "1"), ("b", "2"), ("c", "3")]);
    let backward = table(&[("c", "3"), ("b", "2"), ("a", "1")]);
    assert_eq!(forward, backward);
}

#[test]
fn lookups_find_what_was_inserted() {
    let mut table = table(&[("a", "1"), ("b", "2"), ("c", "3")]);
    assert_eq!(table.get("b").map(String::as_str), Some("2"));
    assert_eq!(table.get("d"), None);
    assert!(table.contains("a"));
    assert!(!table.contains(""));
    assert!(!table.insert("b".to_owned(), "other".to_owned()));
    assert_eq!(table.get("b").map(String::as_str), Some("2"));
    assert_eq!(table.remove("b"), Some("2".to_owned()));
    assert_eq!(table.remove("b"), None);
    assert_eq!(table.len(), 2);
    assert_eq!(table.get("a").map(String::as_str), Some("1"));
    assert_eq!(table.get("c").map(String::as_str), Some("3"));
    assert_eq!(table.value_at(1), "3");
}

#[test]
fn wiping_leaves_names_beside_empty_values() {
    let mut table = table(&[("a", "1"), ("b", "2")]);
    let copy = table.clone();
    table.wipe_values();
    assert_eq!(table.len(), 2);
    assert_eq!(table.get("a").map(String::as_str), Some(""));
    assert_eq!(table.get("b").map(String::as_str), Some(""));
    assert_eq!(copy.get("b").map(String::as_str), Some("2"));
    assert!(!table.is_empty());
    assert!(TextTable::new().is_empty());
}
