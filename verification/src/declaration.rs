//! The version declaration list of a container type: which version number is
//! decoded as which historical type, and which one is the type itself.

use vstd::prelude::*;

verus! {

/// What a declared version is decoded as.
#[derive(Debug, Clone, PartialEq, Eq)]
pub enum PathOrSelf {
    /// A historical type, named by its path, that converts into the container.
    Path(String),
    /// The container type itself, decoded by the ordinary rules.
    SelfType,
}

/// One entry of a version declaration list.
#[derive(Debug, Clone, PartialEq, Eq)]
pub struct Version {
    /// The version number.
    pub index: usize,
    /// The type that data of this version is decoded as.
    pub path: PathOrSelf,
    /// Whether the historical type fills absent fields from its own defaults.
    /// Resolution never reads this flag.
    pub default: bool,
}

/// A fault in a version declaration list.
#[derive(Debug, Clone, Copy, PartialEq, Eq, Structural)]
pub enum DeclarationError {
    /// No entry marks the container type itself.
    MissingSelf,
    /// The entry with this version number marks the container type itself
    /// although an earlier entry already does.
    DuplicateSelf { index: usize },
    /// This version number is declared by an earlier entry already.
    DuplicateIndex { index: usize },
}

/// The entry marks the container type itself.
pub open spec fn is_self(version: Version) -> bool {
    version.path is SelfType
}

/// Two entries declare the same version number to be decoded as the same
/// type; their default flags may differ.
pub open spec fn same_declaration(one: Version, other: Version) -> bool {
    &&& one.index == other.index
    &&& match (one.path, other.path) {
        (PathOrSelf::Path(path), PathOrSelf::Path(other_path)) => path@ == other_path@,
        (PathOrSelf::SelfType, PathOrSelf::SelfType) => true,
        _ => false,
    }
}

/// Two lists make the same declarations, entry by entry.
pub open spec fn same_declarations(entries: Seq<Version>, others: Seq<Version>) -> bool {
    &&& entries.len() == others.len()
    &&& forall|i: int|
        0 <= i < entries.len() ==> same_declaration(#[trigger] entries[i], others[i])
}

/// Some entry among the first `n` marks the container type itself.
pub open spec fn self_among(entries: Seq<Version>, n: int) -> bool {
    exists|j: int| 0 <= j < n && j < entries.len() && is_self(#[trigger] entries[j])
}

/// Some entry among the first `n` declares the version number `index`.
pub open spec fn index_among(entries: Seq<Version>, n: int, index: usize) -> bool {
    exists|j: int| 0 <= j < n && j < entries.len() && (#[trigger] entries[j]).index == index
}

/// A declaration list is well formed when exactly one entry marks the
/// container type itself and no version number is declared twice.
pub open spec fn well_formed(entries: Seq<Version>) -> bool {
    &&& self_among(entries, entries.len() as int)
    &&& forall|i: int, j: int|
        0 <= i < j < entries.len() ==> !(is_self(#[trigger] entries[i]) && is_self(
            #[trigger] entries[j],
        ))
    &&& forall|i: int, j: int|
        0 <= i < j < entries.len() ==> (#[trigger] entries[i]).index != (
        #[trigger] entries[j]).index
}

/// The version number of the first entry that marks the container type
/// itself: the type's current version.
pub open spec fn self_version(entries: Seq<Version>) -> Option<usize>
    decreases entries.len(),
{
    if entries.len() == 0 {
        None
    } else {
        match self_version(entries.drop_last()) {
            Some(index) => Some(index),
            None => if is_self(entries.last()) {
                Some(entries.last().index)
            } else {
                None
            },
        }
    }
}

/// The faults that the entry at position `i` adds to those of the entries
/// before it.
pub open spec fn entry_errors(entries: Seq<Version>, i: int) -> Seq<DeclarationError> {
    let index = entries[i].index;
    let again_self: Seq<DeclarationError> = if is_self(entries[i]) && self_among(entries, i) {
        seq![DeclarationError::DuplicateSelf { index }]
    } else {
        seq![]
    };
    let again_index: Seq<DeclarationError> = if index_among(entries, i, index) {
        seq![DeclarationError::DuplicateIndex { index }]
    } else {
        seq![]
    };
    again_self + again_index
}

/// The faults of the first `n` entries, in the order of the entries.
pub open spec fn errors_among(entries: Seq<Version>, n: int) -> Seq<DeclarationError>
    decreases n,
{
    if n <= 0 {
        seq![]
    } else {
        errors_among(entries, n - 1) + entry_errors(entries, n - 1)
    }
}

/// Every fault of a declaration list: those of its entries in order, then the
/// missing self marker.
pub open spec fn declaration_errors(entries: Seq<Version>) -> Seq<DeclarationError> {
    let missing: Seq<DeclarationError> = if self_among(entries, entries.len() as int) {
        seq![]
    } else {
        seq![DeclarationError::MissingSelf]
    };
    errors_among(entries, entries.len() as int) + missing
}

impl Version {
    /// An entry that decodes version `index` as the historical type at `path`.
    pub fn historical(index: usize, path: String, default: bool) -> (version: Version)
        ensures
            version == (Version { index, path: PathOrSelf::Path(path), default }),
    {
        Version { index, path: PathOrSelf::Path(path), default }
    }

    /// The entry that declares `index` to be the container type's own version.
    pub fn current(index: usize) -> (version: Version)
        ensures
            version == (Version { index, path: PathOrSelf::SelfType, default: false }),
    {
        Version { index, path: PathOrSelf::SelfType, default: false }
    }

    /// Whether the entry marks the container type itself.
    pub fn is_self_type(&self) -> (marks: bool)
        ensures
            marks == is_self(*self),
    {
        match &self.path {
            PathOrSelf::SelfType => true,
            PathOrSelf::Path(_) => false,
        }
    }
}

/// The container type's current version: the version number of the first
/// entry that marks the type itself, or `None` where no entry does.
pub fn last_version(entries: &Vec<Version>) -> (last: Option<usize>)
    ensures
        last == self_version(entries@),
{
    let mut last: Option<usize> = None;
    let mut i: usize = 0;
    while i < entries.len()
        invariant
            0 <= i <= entries.len(),
            last == self_version(entries@.take(i as int)),
        decreases entries.len() - i,
    {
        assert(entries@.take(i + 1).drop_last() =~= entries@.take(i as int));
        if last.is_none() && entries[i].is_self_type() {
            last = Some(entries[i].index);
        }
        i += 1;
    }
    assert(entries@.take(i as int) =~= entries@);
    last
}

/// Lists every fault of a declaration list. The list is well formed exactly
/// when nothing is reported.
pub fn check_versions(entries: &Vec<Version>) -> (errors: Vec<DeclarationError>)
    ensures
        errors@ == declaration_errors(entries@),
        errors@.len() == 0 <==> well_formed(entries@),
{
    let mut errors: Vec<DeclarationError> = Vec::new();
    let mut seen_self = false;
    let mut i: usize = 0;
    while i < entries.len()
        invariant
            0 <= i <= entries.len(),
            errors@ == errors_among(entries@, i as int),
            seen_self == self_among(entries@, i as int),
        decreases entries.len() - i,
    {
        let index = entries[i].index;
        let marks = entries[i].is_self_type();
        let mut seen_index = false;
        let mut j: usize = 0;
        while j < i
            invariant
                0 <= j <= i < entries.len(),
                index == entries[i as int].index,
                seen_index == index_among(entries@, j as int, index),
            decreases i - j,
        {
            if entries[j].index == index {
                seen_index = true;
            }
            j += 1;
        }
        let ghost before = errors@;
        if marks && seen_self {
            errors.push(DeclarationError::DuplicateSelf { index });
        }
        if seen_index {
            errors.push(DeclarationError::DuplicateIndex { index });
        }
        assert(errors@ =~= before + entry_errors(entries@, i as int));
        seen_self = seen_self || marks;
        i += 1;
    }
    if !seen_self {
        errors.push(DeclarationError::MissingSelf);
    }
    assert(errors@ =~= declaration_errors(entries@));
    proof {
        lemma_no_errors_is_well_formed(entries@);
    }
    errors
}

/// The faults of the first `n` entries are none exactly when, among those
/// entries, no two mark the container type itself and no two share a version
/// number.
proof fn lemma_errors_among(entries: Seq<Version>, n: int)
    requires
        0 <= n <= entries.len(),
    ensures
        errors_among(entries, n).len() == 0 <==> {
            &&& forall|i: int, j: int|
                0 <= i < j < n ==> !(is_self(#[trigger] entries[i]) && is_self(
                    #[trigger] entries[j],
                ))
            &&& forall|i: int, j: int|
                0 <= i < j < n ==> (#[trigger] entries[i]).index != (#[trigger] entries[j]).index
        },
    decreases n,
{
    if n > 0 {
        lemma_errors_among(entries, n - 1);
        let last = n - 1;
        if errors_among(entries, n).len() == 0 {
            assert(entry_errors(entries, last).len() == 0);
            assert(!index_among(entries, last, entries[last].index));
            assert(!(is_self(entries[last]) && self_among(entries, last)));
        } else if errors_among(entries, last).len() == 0 {
            assert(entry_errors(entries, last).len() > 0);
            if index_among(entries, last, entries[last].index) {
                let j = choose|j: int|
                    0 <= j < last && j < entries.len() && (#[trigger] entries[j]).index
                        == entries[last].index;
                assert(entries[j].index == entries[last].index);
            } else {
                let j = choose|j: int|
                    0 <= j < last && j < entries.len() && is_self(#[trigger] entries[j]);
                assert(is_self(entries[j]) && is_self(entries[last]));
            }
        }
    }
}

/// A declaration list has no fault exactly when it is well formed.
pub proof fn lemma_no_errors_is_well_formed(entries: Seq<Version>)
    ensures
        declaration_errors(entries).len() == 0 <==> well_formed(entries),
{
    lemma_errors_among(entries, entries.len() as int);
}

/// A list has a current version exactly when one of its entries marks the
/// container type itself, and such an entry declares it.
pub proof fn lemma_self_version(entries: Seq<Version>)
    ensures
        self_version(entries) is Some <==> self_among(entries, entries.len() as int),
        self_version(entries) is Some ==> exists|i: int|
            0 <= i < entries.len() && is_self(#[trigger] entries[i]) && entries[i].index
                == self_version(entries).unwrap(),
    decreases entries.len(),
{
    if entries.len() > 0 {
        let front = entries.drop_last();
        let n = entries.len() - 1;
        lemma_self_version(front);
        assert forall|j: int| 0 <= j < n implies #[trigger] entries[j] == front[j] by {}
        if self_version(front) is Some {
            let i = choose|i: int|
                0 <= i < front.len() && is_self(#[trigger] front[i]) && front[i].index
                    == self_version(front).unwrap();
            assert(is_self(entries[i]) && entries[i].index == self_version(entries).unwrap());
        } else if is_self(entries[n]) {
            assert(is_self(entries[n]) && entries[n].index == self_version(entries).unwrap());
        } else {
            assert forall|j: int| 0 <= j < entries.len() implies !is_self(#[trigger] entries[j]) by {
                if j < n {
                    assert(!is_self(front[j]));
                }
            }
        }
    }
}

} // verus!
