use ron::Value;
use serde_version::{
    convert_one, dispatch, DefaultVersionMap, Error, InvalidVersionError, Version, VersionMap,
};

const A_ID: &str = "test_de::A";

#[derive(Debug, PartialEq)]
struct Av1 {
    a: u8,
}

#[derive(Debug, PartialEq)]
struct Av2 {
    b: u8,
}

impl Default for Av2 {
    fn default() -> Self {
        Self { b: 5 }
    }
}

#[derive(Debug, PartialEq)]
struct A {
    c: u8,
}

impl From<Av1> for A {
    fn from(v: Av1) -> Self {
        Self { c: v.a }
    }
}

impl From<Av2> for A {
    fn from(v: Av2) -> Self {
        Self { c: v.b }
    }
}

#[derive(Debug, PartialEq)]
struct ContainsA {
    a: A,
}

fn versions_of_a() -> Vec<Version> {
    vec![
        Version::historical(1, "Av1".to_owned(), false),
        Version::historical(3, "Av2".to_owned(), true),
        Version::current(4),
    ]
}

fn version_map(pairs: &[(&str, usize)]) -> DefaultVersionMap {
    DefaultVersionMap::from_pairs(
        pairs.iter().map(|(type_id, version)| ((*type_id).to_owned(), *version)).collect(),
    )
}

fn parse(input: &str) -> Value {
    match ron::from_str::<Value>(input) {
        Ok(value) => value,
        Err(error) => panic!("{} does not parse: {}", input, error),
    }
}

fn field<'v>(value: &'v Value, name: &str) -> Result<Option<&'v Value>, String> {
    match value {
        Value::Map(fields) => Ok(fields.get(&Value::String(name.to_owned()))),
        Value::Unit => Ok(None),
        Value::Seq(items) if items.is_empty() => Ok(None),
        other => Err(format!("expected a struct, found {:?}", other)),
    }
}

fn required<'v>(value: &'v Value, name: &str) -> Result<&'v Value, String> {
    match field(value, name)? {
        Some(found) => Ok(found),
        None => Err(format!("missing field `{}`", name)),
    }
}

fn byte(value: &Value) -> Result<u8, String> {
    match value {
        Value::Number(number) => Ok(number.into_f64() as u8),
        other => Err(format!("expected a number, found {:?}", other)),
    }
}

fn plain_av1(value: &Value) -> Result<Av1, String> {
    Ok(Av1 { a: byte(required(value, "a")?)? })
}

fn plain_av2(value: &Value) -> Result<Av2, String> {
    match field(value, "b")? {
        Some(found) => Ok(Av2 { b: byte(found)? }),
        None => Ok(Av2::default()),
    }
}

fn plain_a(value: &Value) -> Result<A, String> {
    Ok(A { c: byte(required(value, "c")?)? })
}

fn versioned_av1<VM: VersionMap>(value: &Value, map: &VM) -> Result<Av1, Error<String>> {
    dispatch(None, "test_de::Av1", map, || plain_av1(value), |version| {
        unreachable!("Av1 declares no version {}", version)
    })
}

fn versioned_av2<VM: VersionMap>(value: &Value, map: &VM) -> Result<Av2, Error<String>> {
    dispatch(None, "test_de::Av2", map, || plain_av2(value), |version| {
        unreachable!("Av2 declares no version {}", version)
    })
}

fn versioned_a<VM: VersionMap>(value: &Value, map: &VM) -> Result<A, Error<String>> {
    let versions = versions_of_a();
    dispatch(
        Some(&versions),
        A_ID,
        map,
        || plain_a(value),
        |version| match version {
            1 => convert_one(versioned_av1(value, map), A::from),
            3 => convert_one(versioned_av2(value, map), A::from),
            other => unreachable!("A declares no historical version {}", other),
        },
    )
}

/// What a decoder that runs under a version map makes of a failure below it:
/// an error of its own with the failure's message.
fn custom(error: Error<String>) -> Error<String> {
    match error {
        Error::DeserializeError(message) => Error::DeserializeError(message),
        Error::InvalidVersionError(refused) => Error::DeserializeError(refused.message()),
    }
}

fn versioned_contains_a<VM: VersionMap>(
    value: &Value,
    map: &VM,
) -> Result<ContainsA, Error<Error<String>>> {
    dispatch(
        None,
        "test_de::ContainsA",
        map,
        || {
            let inner = required(value, "a").map_err(Error::DeserializeError)?;
            convert_one(versioned_a(inner, map).map_err(custom), |a| ContainsA { a })
        },
        |version| unreachable!("ContainsA declares no version {}", version),
    )
}

#[test]
fn test_version() {
    let map = version_map(&[(A_ID, 1)]);
    assert_eq!(versioned_a(&parse("A(a: 8)"), &map), Ok(A { c: 8 }));
    assert_eq!(
        versioned_contains_a(&parse("ContainsA(a: A(a: 4))"), &map),
        Ok(ContainsA { a: A { c: 4 } })
    );
}

#[test]
fn test_current_version() {
    let map = version_map(&[(A_ID, 4)]);
    assert_eq!(versioned_a(&parse("A(c: 8)"), &map), Ok(A { c: 8 }));
    assert_eq!(
        versioned_contains_a(&parse("ContainsA(a: A(c: 4))"), &map),
        Ok(ContainsA { a: A { c: 4 } })
    );
}

#[test]
fn test_no_version() {
    let map = version_map(&[]);
    assert_eq!(versioned_a(&parse("A(c: 8)"), &map), Ok(A { c: 8 }));
    assert_eq!(
        versioned_contains_a(&parse("ContainsA(a: A(c: 4))"), &map),
        Ok(ContainsA { a: A { c: 4 } })
    );
}

#[test]
fn test_default_version() {
    let map = version_map(&[(A_ID, 3)]);
    assert_eq!(versioned_a(&parse("A(b: 8)"), &map), Ok(A { c: 8 }));
    assert_eq!(
        versioned_contains_a(&parse("ContainsA(a: A(b: 4))"), &map),
        Ok(ContainsA { a: A { c: 4 } })
    );
    assert_eq!(versioned_a(&parse("A()"), &map), Ok(A { c: 5 }));
    assert_eq!(
        versioned_contains_a(&parse("ContainsA(a: A())"), &map),
        Ok(ContainsA { a: A { c: 5 } })
    );
}

#[test]
fn test_unknown_version() {
    let map = version_map(&[(A_ID, 5)]);
    assert_eq!(
        versioned_a(&parse("A(b: 8)"), &map),
        Err(Error::InvalidVersionError(InvalidVersionError {
            version: 5,
            type_id: "test_de::A".to_owned()
        }))
    );
    assert_eq!(
        versioned_contains_a(&parse("ContainsA(a: A(b: 4))"), &map),
        Err(Error::DeserializeError(Error::DeserializeError(
            "Invalid version 5 for test_de::A".to_owned()
        )))
    );
}

#[test]
fn test_historical_shape_under_current_version_fails_to_decode() {
    let map = version_map(&[(A_ID, 4)]);
    assert_eq!(
        versioned_a(&parse("A(a: 8)"), &map),
        Err(Error::DeserializeError("missing field `c`".to_owned()))
    );
}

#[test]
fn test_historical_failure_is_handed_on() {
    let map = version_map(&[(A_ID, 1)]);
    assert_eq!(
        versioned_a(&parse("A(c: 8)"), &map),
        Err(Error::DeserializeError("missing field `a`".to_owned()))
    );
}

#[test]
fn test_nested_field_ignores_the_composite_entry() {
    let with_composite = version_map(&[("test_de::ContainsA", 9), (A_ID, 1)]);
    assert_eq!(
        versioned_contains_a(&parse("ContainsA(a: A(a: 4))"), &with_composite),
        Ok(ContainsA { a: A { c: 4 } })
    );
}

#[test]
fn test_map_passed_by_reference() {
    let map = version_map(&[(A_ID, 1)]);
    let borrowed = &map;
    assert_eq!(versioned_a(&parse("A(a: 8)"), &borrowed), Ok(A { c: 8 }));
}
