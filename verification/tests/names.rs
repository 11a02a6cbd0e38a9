//! Tables by name.

use perry::names::{stands_before, NameTable};

#[test]
fn names_are_ordered_by_their_bytes() {
    let names = ["", "a", "aa", "ab", "b", "ba", "z", "é", "日本", "😀"];
    for (i, a) in names.iter().enumerate() {
        for (j, b) in names.iter().enumerate() {
            assert_eq!(stands_before(a, b), i < j, "{} {}", a, b);
            assert_eq!(stands_before(a, b), a < b);
        }
    }
}

#[test]
fn tables_keep_their_names_in_order_and_once() {
    let mut table: NameTable<u64> = NameTable::new();
    for (name, n) in [("m", 1), ("b", 2), ("z", 3), ("b", 4), ("a", 5), ("", 6)] {
        table.insert(name.to_string(), n);
    }
    let listed: Vec<(String, u64)> =
        (0..table.len()).map(|i| (table.at(i).0.clone(), *table.at(i).1)).collect();
    assert_eq!(
        listed,
        vec![
            ("".to_string(), 6),
            ("a".to_string(), 5),
            ("b".to_string(), 4),
            ("m".to_string(), 1),
            ("z".to_string(), 3),
        ]
    );
}

#[test]
fn tables_find_what_was_put_in() {
    let mut table: NameTable<u64> = NameTable::new();
    assert_eq!(table.get("x"), None);
    table.insert("x".to_string(), 1);
    table.insert("y".to_string(), 2);
    assert_eq!(table.get("x"), Some(&1));
    assert_eq!(table.get("y"), Some(&2));
    assert_eq!(table.get("z"), None);
    assert!(table.contains_key("y"));
    assert!(!table.contains_key("xx"));
    let copy = table.clone();
    table.insert("x".to_string(), 9);
    assert_eq!(table.get("x"), Some(&9));
    assert_eq!(copy.get("x"), Some(&1));
}
