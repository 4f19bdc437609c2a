use serde_version::{check_versions, last_version, DeclarationError, PathOrSelf, Version};

fn historical(index: usize, path: &str) -> Version {
    Version::historical(index, path.to_owned(), false)
}

#[test]
fn constructors_build_the_entries() {
    assert_eq!(
        Version::historical(3, "Av2".to_owned(), true),
        Version { index: 3, path: PathOrSelf::Path("Av2".to_owned()), default: true }
    );
    assert_eq!(
        Version::current(4),
        Version { index: 4, path: PathOrSelf::SelfType, default: false }
    );
    assert!(Version::current(4).is_self_type());
    assert!(!historical(1, "Av1").is_self_type());
}

#[test]
fn well_formed_list_has_no_fault() {
    let entries = vec![historical(1, "Av1"), historical(3, "Av2"), Version::current(4)];
    assert_eq!(check_versions(&entries), vec![]);
    assert_eq!(last_version(&entries), Some(4));
}

#[test]
fn self_marker_may_stand_anywhere() {
    let entries = vec![historical(9, "Old"), Version::current(2), historical(1, "Older")];
    assert_eq!(check_versions(&entries), vec![]);
    assert_eq!(last_version(&entries), Some(2));
}

#[test]
fn self_marker_alone_is_well_formed() {
    let entries = vec![Version::current(0)];
    assert_eq!(check_versions(&entries), vec![]);
    assert_eq!(last_version(&entries), Some(0));
}

#[test]
fn empty_list_misses_the_self_marker() {
    let entries: Vec<Version> = vec![];
    assert_eq!(check_versions(&entries), vec![DeclarationError::MissingSelf]);
    assert_eq!(last_version(&entries), None);
}

#[test]
fn list_without_self_marker_is_refused() {
    let entries = vec![historical(1, "Av1"), historical(3, "Av2")];
    assert_eq!(check_versions(&entries), vec![DeclarationError::MissingSelf]);
    assert_eq!(last_version(&entries), None);
}

#[test]
fn second_self_marker_is_refused() {
    let entries = vec![Version::current(4), historical(1, "Av1"), Version::current(5)];
    assert_eq!(check_versions(&entries), vec![DeclarationError::DuplicateSelf { index: 5 }]);
    assert_eq!(last_version(&entries), Some(4));
}

#[test]
fn repeated_version_number_is_refused() {
    let entries = vec![historical(1, "Av1"), historical(1, "Av2"), Version::current(4)];
    assert_eq!(check_versions(&entries), vec![DeclarationError::DuplicateIndex { index: 1 }]);
}

#[test]
fn every_fault_is_reported_in_order() {
    let entries = vec![
        historical(1, "Av1"),
        Version::current(2),
        Version::current(2),
        historical(1, "Av3"),
        historical(2, "Av4"),
    ];
    assert_eq!(
        check_versions(&entries),
        vec![
            DeclarationError::DuplicateSelf { index: 2 },
            DeclarationError::DuplicateIndex { index: 2 },
            DeclarationError::DuplicateIndex { index: 1 },
            DeclarationError::DuplicateIndex { index: 2 },
        ]
    );
}

#[test]
fn repeated_numbers_without_self_marker_report_both() {
    let entries = vec![historical(7, "X"), historical(7, "Y")];
    assert_eq!(
        check_versions(&entries),
        vec![DeclarationError::DuplicateIndex { index: 7 }, DeclarationError::MissingSelf]
    );
}
