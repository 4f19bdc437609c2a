use serde_version::{DefaultVersionMap, VersionMap, VersionMapIter};

fn get_through<VM: VersionMap>(map: VM, type_id: &str) -> Option<usize> {
    map.get(type_id)
}

fn listed<VM: VersionMapIter>(map: VM) -> Vec<(String, usize)> {
    let mut listing = map.iter();
    listing.sort();
    listing
}

#[test]
fn empty_map_holds_nothing() {
    let map = DefaultVersionMap::new();
    assert_eq!(map.get("A"), None);
    assert_eq!(map.get(""), None);
    assert_eq!(map.iter(), Vec::<(String, usize)>::new());
}

#[test]
fn get_returns_what_was_inserted() {
    let mut map = DefaultVersionMap::new();
    map.insert("A".to_owned(), 1);
    map.insert("B".to_owned(), 7);
    assert_eq!(map.get("A"), Some(1));
    assert_eq!(map.get("B"), Some(7));
    assert_eq!(map.get("C"), None);
    assert_eq!(map.get("a"), None);
}

#[test]
fn insert_replaces_an_entry() {
    let mut map = DefaultVersionMap::new();
    map.insert("A".to_owned(), 1);
    map.insert("B".to_owned(), 2);
    map.insert("A".to_owned(), 3);
    assert_eq!(map.get("A"), Some(3));
    assert_eq!(map.get("B"), Some(2));
    assert_eq!(listed(&map), vec![("A".to_owned(), 3), ("B".to_owned(), 2)]);
}

#[test]
fn iter_lists_every_entry_once() {
    let mut map = DefaultVersionMap::new();
    map.insert("x::A".to_owned(), 1);
    map.insert("x::B".to_owned(), 2);
    map.insert("x::C".to_owned(), 0);
    assert_eq!(
        listed(&map),
        vec![("x::A".to_owned(), 1), ("x::B".to_owned(), 2), ("x::C".to_owned(), 0)]
    );
}

#[test]
fn references_are_version_maps() {
    let mut map = DefaultVersionMap::new();
    map.insert("A".to_owned(), 4);
    assert_eq!(get_through(&map, "A"), Some(4));
    assert_eq!(get_through(&&map, "A"), Some(4));
    assert_eq!(get_through(&map, "B"), None);
    assert_eq!(listed(&&map), vec![("A".to_owned(), 4)]);
}

#[test]
fn clone_holds_the_same_entries() {
    let mut map = DefaultVersionMap::new();
    map.insert("A".to_owned(), 4);
    let copy = map.clone();
    map.insert("A".to_owned(), 5);
    assert_eq!(copy.get("A"), Some(4));
    assert_eq!(map.get("A"), Some(5));
    assert_eq!(get_through(copy, "A"), Some(4));
}

#[test]
fn from_pairs_keeps_the_later_pair() {
    let map = DefaultVersionMap::from_pairs(vec![
        ("A".to_owned(), 1),
        ("B".to_owned(), 2),
        ("A".to_owned(), 3),
    ]);
    assert_eq!(map.get("A"), Some(3));
    assert_eq!(map.get("B"), Some(2));
    assert_eq!(listed(&map), vec![("A".to_owned(), 3), ("B".to_owned(), 2)]);
}

#[test]
fn from_pairs_of_nothing_is_empty() {
    let map = DefaultVersionMap::from_pairs(vec![]);
    assert_eq!(map.iter(), Vec::<(String, usize)>::new());
    assert!(!map.contains("A"));
}

#[test]
fn contains_tells_absent_from_present() {
    let mut map = DefaultVersionMap::new();
    assert!(!map.contains("A"));
    map.insert("A".to_owned(), 0);
    assert!(map.contains("A"));
    assert!(!map.contains("AA"));
    assert!(!map.contains(""));
}

#[test]
fn mutable_references_enumerate() {
    let mut map = DefaultVersionMap::from_pairs(vec![("A".to_owned(), 1)]);
    let borrowed = &mut map;
    assert_eq!(listed(borrowed), vec![("A".to_owned(), 1)]);
}

#[test]
fn default_map_is_empty() {
    let map = DefaultVersionMap::default();
    assert_eq!(map.get("A"), None);
    assert_eq!(map.iter(), Vec::<(String, usize)>::new());
}

fn listed_in_order<VM: VersionMapIter>(map: VM) -> Vec<(String, usize)> {
    map.iter()
}

#[test]
fn borrowed_maps_list_as_the_map_does() {
    let mut map = DefaultVersionMap::from_pairs(vec![
        ("x::C".to_owned(), 3),
        ("x::A".to_owned(), 1),
        ("x::B".to_owned(), 2),
    ]);
    map.insert("x::D".to_owned(), 0);
    map.insert("x::A".to_owned(), 9);
    let own = map.iter();
    assert_eq!(own.len(), 4);
    assert_eq!(listed_in_order(&map), own);
    assert_eq!(listed_in_order(&&map), own);
    assert_eq!(listed_in_order(&mut map), own);
    assert_eq!(map.iter(), own);
}

#[test]
fn borrowed_maps_hold_what_the_map_holds() {
    let map = DefaultVersionMap::from_pairs(vec![("A".to_owned(), 1), ("B".to_owned(), 2)]);
    for type_id in ["A", "B", "C", ""] {
        assert_eq!(get_through(&map, type_id), map.get(type_id));
        assert_eq!(get_through(&&map, type_id), map.get(type_id));
    }
}
