//! Version resolution: which decoder a type is routed to under a version map.

use crate::declaration::{
    index_among, is_self, lemma_self_version, same_declaration, same_declarations, self_version,
    well_formed, PathOrSelf, Version,
};
use crate::error::{wrap_decode, Error, InvalidVersionError};
use crate::version_map::{lookup, VersionMap};
use vstd::prelude::*;

verus! {

/// The decoder that a type is routed to.
#[derive(Debug, Clone, Copy, PartialEq, Eq, Structural)]
pub enum Route {
    /// The type's own ordinary decoder.
    Current,
    /// The decoder of the historical type that the entry at `position`
    /// declares, followed by the conversion into the container.
    Historical { position: usize },
}

/// The entry names a historical type for the version number `version`.
pub open spec fn declares_historical(entry: Version, version: usize) -> bool {
    entry.index == version && entry.path is Path
}

/// The position of the first entry that names a historical type for
/// `version`.
pub open spec fn historical_position(entries: Seq<Version>, version: usize) -> Option<int>
    decreases entries.len(),
{
    if entries.len() == 0 {
        None
    } else {
        match historical_position(entries.drop_last(), version) {
            Some(position) => Some(position),
            None => if declares_historical(entries.last(), version) {
                Some(entries.len() - 1)
            } else {
                None
            },
        }
    }
}

/// Where a declaration list routes a version number that the map holds: the
/// current version to the type itself, a version with a historical type to
/// that type, any other nowhere.
pub open spec fn route_version(entries: Seq<Version>, version: usize) -> Option<Route> {
    if self_version(entries) == Some(version) {
        Some(Route::Current)
    } else {
        match historical_position(entries, version) {
            Some(position) => Some(Route::Historical { position: position as usize }),
            None => None,
        }
    }
}

/// Where a type is routed: `declared` is its declaration list, if it has one,
/// and `found` what the version map holds for it. `None` stands for a version
/// that is not recognized.
pub open spec fn route(declared: Option<Seq<Version>>, found: Option<usize>) -> Option<Route> {
    match (declared, found) {
        (Some(entries), Some(version)) => route_version(entries, version),
        _ => Some(Route::Current),
    }
}

/// The declaration list behind a borrowed one.
pub open spec fn declared(versions: Option<&Vec<Version>>) -> Option<Seq<Version>> {
    match versions {
        Some(entries) => Some(entries@),
        None => None,
    }
}

/// What `historical_position` finds is the first entry that names a
/// historical type for the version, and it finds one wherever there is one.
pub proof fn lemma_historical_position(entries: Seq<Version>, version: usize)
    ensures
        match historical_position(entries, version) {
            Some(position) => 0 <= position < entries.len() && declares_historical(
                entries[position],
                version,
            ) && forall|j: int| 0 <= j < position ==> !declares_historical(#[trigger] entries[j], version),
            None => forall|j: int|
                0 <= j < entries.len() ==> !declares_historical(#[trigger] entries[j], version),
        },
    decreases entries.len(),
{
    if entries.len() > 0 {
        let front = entries.drop_last();
        lemma_historical_position(front, version);
        assert forall|j: int| 0 <= j < front.len() implies #[trigger] entries[j] == front[j] by {}
    }
}

/// Resolves the version that the map holds for a type.
///
/// A type without a declaration list, an absent version and the current
/// version lead to the type's own decoder; a version declared with a
/// historical type leads to that entry; any other version is refused with
/// the version number and the type's identifier.
pub fn resolve(versions: Option<&Vec<Version>>, type_id: &str, found: Option<usize>) -> (result:
    Result<Route, InvalidVersionError>)
    ensures
        match route(declared(versions), found) {
            Some(to) => result == Ok::<Route, InvalidVersionError>(to),
            None => result matches Err(error) && found == Some(error.version) && error.type_id@
                == type_id@,
        },
{
    let entries = match versions {
        Some(entries) => entries,
        None => {
            return Ok(Route::Current);
        },
    };
    let version = match found {
        Some(version) => version,
        None => {
            return Ok(Route::Current);
        },
    };
    let mut current: Option<usize> = None;
    let mut historical: Option<usize> = None;
    let mut i: usize = 0;
    while i < entries.len()
        invariant
            0 <= i <= entries.len(),
            current == self_version(entries@.take(i as int)),
            match historical_position(entries@.take(i as int), version) {
                Some(position) => historical == Some(position as usize) && position < i,
                None => historical is None,
            },
        decreases entries.len() - i,
    {
        assert(entries@.take(i + 1).drop_last() =~= entries@.take(i as int));
        assert(entries@.take(i + 1).last() == entries[i as int]);
        match &entries[i].path {
            PathOrSelf::SelfType => {
                if current.is_none() {
                    current = Some(entries[i].index);
                }
            },
            PathOrSelf::Path(_) => {
                if historical.is_none() && entries[i].index == version {
                    historical = Some(i);
                }
            },
        }
        i += 1;
    }
    assert(entries@.take(i as int) =~= entries@);
    if current == Some(version) {
        return Ok(Route::Current);
    }
    match historical {
        Some(position) => Ok(Route::Historical { position }),
        None => Err(InvalidVersionError { version, type_id: type_id.to_owned() }),
    }
}

/// Where a type is routed under a version map: by what the map holds for
/// the type's identifier.
pub open spec fn routed<VM: VersionMap>(
    versions: Option<&Vec<Version>>,
    version_map: &VM,
    type_id: &str,
) -> Option<Route> {
    route(declared(versions), lookup(version_map.entries(), type_id@))
}

/// `result` is what the ordinary decoder `current` gave, with a failure
/// marked as the format decoder's.
pub open spec fn ordinary_outcome<R, E, C: FnOnce() -> Result<R, E>>(
    current: C,
    result: Result<R, Error<E>>,
) -> bool {
    match result {
        Ok(value) => call_ensures(current, (), Ok::<R, E>(value)),
        Err(Error::DeserializeError(error)) => call_ensures(current, (), Err::<R, E>(error)),
        Err(Error::InvalidVersionError(_)) => false,
    }
}

/// Decodes a type under a version map, for any one access pattern.
///
/// `current` decodes the type itself by the ordinary rules. `historical`
/// is handed a declared version number; it decodes the historical type of
/// that version through that type's own versioned entry point and converts
/// the outcome into the container. The version that the map holds for
/// `type_id` decides which of the two runs. The ordinary decoder's failure
/// is marked as a failure of the format decoder; what the historical decoder
/// returns is handed on as it is; a version that the type does not declare
/// is refused and neither decoder runs.
pub fn dispatch<R, E, VM, C, H>(
    versions: Option<&Vec<Version>>,
    type_id: &str,
    version_map: &VM,
    current: C,
    historical: H,
) -> (result: Result<R, Error<E>>) where
    VM: VersionMap,
    C: FnOnce() -> Result<R, E>,
    H: FnOnce(usize) -> Result<R, Error<E>>,

    requires
        routed(versions, version_map, type_id) == Some(Route::Current) ==> call_requires(
            current,
            (),
        ),
        routed(versions, version_map, type_id) matches Some(Route::Historical { position })
            ==> call_requires(historical, (versions.unwrap()@[position as int].index,)),
    ensures
        match routed(versions, version_map, type_id) {
            Some(Route::Current) => ordinary_outcome(current, result),
            Some(Route::Historical { position }) => call_ensures(
                historical,
                (versions.unwrap()@[position as int].index,),
                result,
            ),
            None => result matches Err(Error::InvalidVersionError(error)) && lookup(
                version_map.entries(),
                type_id@,
            ) == Some(error.version) && error.type_id@ == type_id@,
        },
{
    let found = version_map.get(type_id);
    match resolve(versions, type_id, found) {
        Ok(Route::Current) => wrap_decode(current()),
        Ok(Route::Historical { position }) => {
            proof {
                lemma_historical_position(versions.unwrap()@, found.unwrap());
                assert(versions.unwrap()@.len() == versions.unwrap().len());
            }
            historical(found.unwrap())
        },
        Err(error) => Err(Error::InvalidVersionError(error)),
    }
}

/// A type without a declaration list is decoded by the ordinary rules,
/// whatever the version map holds: versioning touches only the types that
/// declare versions.
pub proof fn lemma_undeclared_is_ordinary(found: Option<usize>)
    ensures
        route(None, found) == Some(Route::Current),
{
}

/// A version map without an entry for a type routes it as a map does that
/// holds the type's current version: both lead to the type's own decoder.
pub proof fn lemma_absent_is_current(
    entries: Seq<Version>,
    entries_map: Map<Seq<char>, usize>,
    type_id: Seq<char>,
)
    requires
        self_version(entries) is Some,
        !entries_map.contains_key(type_id),
    ensures
        route(Some(entries), lookup(entries_map, type_id)) == Some(Route::Current),
        route(
            Some(entries),
            lookup(entries_map.insert(type_id, self_version(entries).unwrap()), type_id),
        ) == Some(Route::Current),
{
}

/// In a well-formed list, the version number of an entry that names a
/// historical type is routed to that entry, and so to that type's decoder
/// and conversion.
pub proof fn lemma_declared_is_historical(entries: Seq<Version>, position: int)
    requires
        well_formed(entries),
        0 <= position < entries.len(),
        entries[position].path is Path,
    ensures
        self_version(entries) != Some(entries[position].index),
        route(Some(entries), Some(entries[position].index)) == Some(
            Route::Historical { position: position as usize },
        ),
{
    let version = entries[position].index;
    lemma_self_version(entries);
    let own = choose|i: int|
        0 <= i < entries.len() && is_self(#[trigger] entries[i]) && entries[i].index
            == self_version(entries).unwrap();
    if own < position {
        assert(entries[own].index != entries[position].index);
    } else if position < own {
        assert(entries[position].index != entries[own].index);
    }
    lemma_historical_position(entries, version);
    let first = historical_position(entries, version).unwrap();
    if first < position {
        assert(entries[first].index != entries[position].index);
    }
}

/// A version number that no entry declares is not recognized; in a
/// well-formed list these are the only ones.
pub proof fn lemma_undeclared_is_refused(entries: Seq<Version>, version: usize)
    ensures
        !index_among(entries, entries.len() as int, version) ==> route(
            Some(entries),
            Some(version),
        ) is None,
        well_formed(entries) && route(Some(entries), Some(version)) is None ==> !index_among(
            entries,
            entries.len() as int,
            version,
        ),
{
    lemma_historical_position(entries, version);
    if !index_among(entries, entries.len() as int, version) {
        lemma_self_version(entries);
        if let Some(first) = historical_position(entries, version) {
            assert(entries[first].index == version);
        }
    }
    if well_formed(entries) && route(Some(entries), Some(version)) is None {
        lemma_self_version(entries);
        assert forall|j: int| 0 <= j < entries.len() implies (#[trigger] entries[j]).index
            != version by {
            if entries[j].index == version {
                if is_self(entries[j]) {
                    let own = choose|i: int|
                        0 <= i < entries.len() && is_self(#[trigger] entries[i])
                            && entries[i].index == self_version(entries).unwrap();
                    if own < j {
                        assert(!(is_self(entries[own]) && is_self(entries[j])));
                    } else if j < own {
                        assert(!(is_self(entries[j]) && is_self(entries[own])));
                    }
                } else {
                    assert(declares_historical(entries[j], version));
                }
            }
        }
    }
}

/// Two lists that differ only in the default flags of their entries route
/// every version alike: resolution does not read the flag.
pub proof fn lemma_default_flag_is_ignored(
    entries: Seq<Version>,
    flagged: Seq<Version>,
    found: Option<usize>,
)
    requires
        same_declarations(entries, flagged),
    ensures
        route(Some(entries), found) == route(Some(flagged), found),
{
    if let Some(version) = found {
        lemma_same_resolution(entries, flagged, version);
    }
}

/// Lists that make the same declarations agree on the current version and on
/// where each historical type stands.
proof fn lemma_same_resolution(entries: Seq<Version>, flagged: Seq<Version>, version: usize)
    requires
        same_declarations(entries, flagged),
    ensures
        self_version(entries) == self_version(flagged),
        historical_position(entries, version) == historical_position(flagged, version),
    decreases entries.len(),
{
    if entries.len() > 0 {
        let n = entries.len() - 1;
        assert(same_declaration(entries[n], flagged[n]));
        assert forall|i: int| 0 <= i < n implies same_declaration(
            #[trigger] entries.drop_last()[i],
            flagged.drop_last()[i],
        ) by {
            assert(same_declaration(entries[i], flagged[i]));
        }
        lemma_same_resolution(entries.drop_last(), flagged.drop_last(), version);
    }
}

/// A type is routed by its own entry of the version map alone: what the map
/// holds for any other type, be it a composite that contains this one, does
/// not change where it is routed.
pub proof fn lemma_routes_are_independent(
    declared: Option<Seq<Version>>,
    type_id: Seq<char>,
    entries_map: Map<Seq<char>, usize>,
    other_id: Seq<char>,
    other_version: usize,
)
    requires
        other_id != type_id,
    ensures
        route(declared, lookup(entries_map.insert(other_id, other_version), type_id)) == route(
            declared,
            lookup(entries_map, type_id),
        ),
        route(declared, lookup(entries_map.remove(other_id), type_id)) == route(
            declared,
            lookup(entries_map, type_id),
        ),
{
}

} // verus!
