use host_instrument::table::{Entry, SingletonMap};

#[test]
fn new_table_is_empty() {
    let table = SingletonMap::new();
    assert!(table.is_empty());
    assert_eq!(table.len(), 0);
    assert_eq!(table.get("CSFile"), None);
    assert!(table.entries().is_empty());
}

#[test]
fn insert_then_get() {
    let mut table = SingletonMap::new();
    table.insert("CSFile".to_string(), 0x1_4000_2010);
    table.insert("CSNetMan".to_string(), 0x1_4000_2020);
    assert!(!table.is_empty());
    assert_eq!(table.len(), 2);
    assert_eq!(table.get("CSFile"), Some(0x1_4000_2010));
    assert_eq!(table.get("CSNetMan"), Some(0x1_4000_2020));
    assert_eq!(table.get("CSNet"), None);
    assert_eq!(table.get(""), None);
}

#[test]
fn insert_overwrites_the_address_of_a_name() {
    let mut table = SingletonMap::new();
    table.insert("CSFile".to_string(), 1);
    table.insert("CSNetMan".to_string(), 2);
    table.insert("CSFile".to_string(), 3);
    assert_eq!(table.len(), 2);
    assert_eq!(table.get("CSFile"), Some(3));
    assert_eq!(table.get("CSNetMan"), Some(2));
    assert_eq!(
        table.entries(),
        &vec![
            Entry { name: "CSFile".to_string(), address: 3 },
            Entry { name: "CSNetMan".to_string(), address: 2 },
        ]
    );
}

#[test]
fn names_are_told_apart_exactly() {
    let mut table = SingletonMap::new();
    table.insert("csfile".to_string(), 1);
    table.insert("CSFile".to_string(), 2);
    table.insert("CSFile ".to_string(), 3);
    assert_eq!(table.len(), 3);
    assert_eq!(table.get("csfile"), Some(1));
    assert_eq!(table.get("CSFile"), Some(2));
    assert_eq!(table.get("CSFile "), Some(3));
}
