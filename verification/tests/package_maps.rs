use blaze::packages::{Entry, PackageMap};

fn entry_of(name: &str, version: &str) -> Entry {
    Entry { name: name.to_string(), version: version.to_string() }
}

#[test]
fn a_new_mapping_is_empty() {
    let m = PackageMap::new();
    assert_eq!(m.len(), 0);
    assert_eq!(m.get("left-pad"), None);
    assert_eq!(m.entry(0), None);
}

#[test]
fn insert_adds_a_new_name_at_the_end() {
    let mut m = PackageMap::new();
    m.insert("b", "1.0.0");
    m.insert("a", "2.0.0");
    assert_eq!(m.len(), 2);
    assert_eq!(m.entry(0), Some(entry_of("b", "1.0.0")));
    assert_eq!(m.entry(1), Some(entry_of("a", "2.0.0")));
    assert_eq!(m.get("a"), Some("2.0.0".to_string()));
    assert!(m.contains_name("b"));
    assert!(!m.contains_name("c"));
}

#[test]
fn insert_lets_the_last_write_win() {
    let mut m = PackageMap::new();
    m.insert("a", "1.0.0");
    m.insert("b", "1.0.0");
    m.insert("a", "1.5.0");
    assert_eq!(m.len(), 2);
    assert_eq!(m.to_entries(), vec![entry_of("a", "1.5.0"), entry_of("b", "1.0.0")]);
}

#[test]
fn merge_overrides_shared_names() {
    let mut m = PackageMap::new();
    m.insert("a", "1.0.0");
    m.insert("b", "1.0.0");
    let mut other = PackageMap::new();
    other.insert("b", "2.0.0");
    other.insert("c", "3.0.0");
    m.merge(&other);
    assert_eq!(
        m.to_entries(),
        vec![entry_of("a", "1.0.0"), entry_of("b", "2.0.0"), entry_of("c", "3.0.0")]
    );
    assert_eq!(other.len(), 2);
}

#[test]
fn merge_of_nothing_changes_nothing() {
    let mut m = PackageMap::new();
    m.insert("a", "1.0.0");
    m.merge(&PackageMap::new());
    assert_eq!(m.to_entries(), vec![entry_of("a", "1.0.0")]);
}

#[test]
fn from_entries_holds_each_name_once() {
    let m = PackageMap::from_entries(&vec![
        entry_of("a", "1.0.0"),
        entry_of("b", "1.0.0"),
        entry_of("a", "2.0.0"),
    ]);
    assert_eq!(m.to_entries(), vec![entry_of("a", "2.0.0"), entry_of("b", "1.0.0")]);
}

#[test]
fn identical_asks_for_the_same_entries_in_the_same_order() {
    let mut m = PackageMap::new();
    m.insert("a", "1.0.0");
    m.insert("b", "1.0.0");
    let mut same = PackageMap::new();
    same.insert("a", "1.0.0");
    same.insert("b", "1.0.0");
    let mut turned = PackageMap::new();
    turned.insert("b", "1.0.0");
    turned.insert("a", "1.0.0");
    let mut changed = PackageMap::new();
    changed.insert("a", "1.0.0");
    changed.insert("b", "1.0.1");
    let mut shorter = PackageMap::new();
    shorter.insert("a", "1.0.0");
    assert!(m.identical(&same));
    assert!(!m.identical(&turned));
    assert!(!m.identical(&changed));
    assert!(!m.identical(&shorter));
    assert!(!shorter.identical(&m));
}

#[test]
fn duplicate_copies_every_entry() {
    let mut m = PackageMap::new();
    m.insert("a", "1.0.0");
    m.insert("b", "2.0.0");
    let copy = m.duplicate();
    assert!(copy.identical(&m));
    assert_eq!(copy.to_entries(), m.to_entries());
}
