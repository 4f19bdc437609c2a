use serde_version::{
    dispatch, resolve, wrap_decode, DefaultVersionMap, Error, InvalidVersionError, Route, Version,
};

fn versions_of_a() -> Vec<Version> {
    vec![
        Version::historical(1, "Av1".to_owned(), false),
        Version::historical(3, "Av2".to_owned(), true),
        Version::current(4),
    ]
}

fn refused(version: usize, type_id: &str) -> Result<Route, InvalidVersionError> {
    Err(InvalidVersionError { version, type_id: type_id.to_owned() })
}

#[test]
fn absent_version_is_current() {
    assert_eq!(resolve(Some(&versions_of_a()), "A", None), Ok(Route::Current));
}

#[test]
fn current_version_is_current() {
    assert_eq!(resolve(Some(&versions_of_a()), "A", Some(4)), Ok(Route::Current));
}

#[test]
fn absent_and_current_resolve_alike() {
    let versions = versions_of_a();
    assert_eq!(resolve(Some(&versions), "A", None), resolve(Some(&versions), "A", Some(4)));
}

#[test]
fn declared_versions_lead_to_their_entries() {
    let versions = versions_of_a();
    assert_eq!(resolve(Some(&versions), "A", Some(1)), Ok(Route::Historical { position: 0 }));
    assert_eq!(resolve(Some(&versions), "A", Some(3)), Ok(Route::Historical { position: 1 }));
}

#[test]
fn undeclared_versions_are_refused() {
    let versions = versions_of_a();
    assert_eq!(resolve(Some(&versions), "A", Some(5)), refused(5, "A"));
    assert_eq!(resolve(Some(&versions), "A", Some(0)), refused(0, "A"));
    assert_eq!(resolve(Some(&versions), "A", Some(2)), refused(2, "A"));
    assert_eq!(
        resolve(Some(&versions), "x::A", Some(usize::MAX)),
        refused(usize::MAX, "x::A")
    );
}

#[test]
fn undeclared_type_is_always_current() {
    assert_eq!(resolve(None, "B", None), Ok(Route::Current));
    assert_eq!(resolve(None, "B", Some(0)), Ok(Route::Current));
    assert_eq!(resolve(None, "B", Some(17)), Ok(Route::Current));
}

#[test]
fn default_flag_does_not_change_the_route() {
    let plain = vec![
        Version::historical(1, "Av1".to_owned(), false),
        Version::historical(3, "Av2".to_owned(), false),
        Version::current(4),
    ];
    let flagged = vec![
        Version::historical(1, "Av1".to_owned(), true),
        Version::historical(3, "Av2".to_owned(), true),
        Version::current(4),
    ];
    for found in [None, Some(1), Some(3), Some(4), Some(5)] {
        assert_eq!(resolve(Some(&plain), "A", found), resolve(Some(&flagged), "A", found));
    }
}

#[test]
fn self_marker_first_in_the_list() {
    let versions = vec![Version::current(2), Version::historical(1, "Old".to_owned(), false)];
    assert_eq!(resolve(Some(&versions), "T", Some(2)), Ok(Route::Current));
    assert_eq!(resolve(Some(&versions), "T", Some(1)), Ok(Route::Historical { position: 1 }));
    assert_eq!(resolve(Some(&versions), "T", Some(3)), refused(3, "T"));
}

#[test]
fn wrap_decode_marks_the_decoder_failure() {
    assert_eq!(wrap_decode::<u8, String>(Ok(8)), Ok(8));
    assert_eq!(
        wrap_decode::<u8, String>(Err("bad".to_owned())),
        Err(Error::DeserializeError("bad".to_owned()))
    );
}

#[test]
fn dispatch_runs_the_routed_decoder_only() {
    let versions = versions_of_a();
    let mut map = DefaultVersionMap::new();
    map.insert("A".to_owned(), 3);
    let result: Result<&str, Error<String>> = dispatch(
        Some(&versions),
        "A",
        &map,
        || panic!("the ordinary decoder must not run"),
        |version| {
            assert_eq!(version, 3);
            Ok("historical")
        },
    );
    assert_eq!(result, Ok("historical"));

    map.insert("A".to_owned(), 4);
    let result: Result<&str, Error<String>> = dispatch(
        Some(&versions),
        "A",
        &map,
        || Ok("current"),
        |_| panic!("no historical decoder must run"),
    );
    assert_eq!(result, Ok("current"));

    map.insert("A".to_owned(), 2);
    let result: Result<&str, Error<String>> = dispatch(
        Some(&versions),
        "A",
        &map,
        || panic!("the ordinary decoder must not run"),
        |_| panic!("no historical decoder must run"),
    );
    assert_eq!(
        result,
        Err(Error::InvalidVersionError(InvalidVersionError {
            version: 2,
            type_id: "A".to_owned()
        }))
    );
}

#[test]
fn dispatch_keeps_the_kind_of_a_historical_failure() {
    let versions = versions_of_a();
    let mut map = DefaultVersionMap::new();
    map.insert("A".to_owned(), 1);
    let nested = InvalidVersionError { version: 9, type_id: "Inner".to_owned() };
    let handed = nested.clone();
    let result: Result<u8, Error<String>> = dispatch(
        Some(&versions),
        "A",
        &map,
        || Ok(0),
        move |_| Err(Error::InvalidVersionError(handed)),
    );
    assert_eq!(result, Err(Error::InvalidVersionError(nested)));
}

#[test]
fn dispatch_reads_only_the_entry_of_its_type() {
    let versions = versions_of_a();
    let mut map = DefaultVersionMap::new();
    map.insert("B".to_owned(), 1);
    map.insert("AA".to_owned(), 3);
    let result: Result<&str, Error<String>> =
        dispatch(Some(&versions), "A", &map, || Ok("current"), |_| Ok("historical"));
    assert_eq!(result, Ok("current"));
}
