//! The dispatch table of a container type: the arms of the match on what the
//! version map holds for the type, in the order in which they are tried.

use crate::declaration::{self_version, PathOrSelf, Version};
use crate::resolve::{
    declares_historical, historical_position, lemma_historical_position, route, Route,
};
use vstd::prelude::*;

verus! {

/// One arm of the match. The first arm that admits what the map holds is
/// taken.
#[derive(Debug, Clone, Copy, PartialEq, Eq, Structural)]
pub enum Arm {
    /// Admits the version number `index`: decode as the historical type that
    /// the entry at `position` names, and convert.
    Historical { index: usize, position: usize },
    /// Admits an absent version and the version number `index`: decode the
    /// container itself by the ordinary rules.
    Current { index: usize },
    /// Admits every version number: refuse it.
    Unknown,
}

impl Arm {
    /// The arm's pattern admits what the version map holds.
    pub open spec fn admits(self, found: Option<usize>) -> bool {
        match self {
            Arm::Historical { index, position } => found == Some(index),
            Arm::Current { index } => found is None || found == Some(index),
            Arm::Unknown => found is Some,
        }
    }

    /// Where the arm leads; `None` for the arm that refuses.
    pub open spec fn target(self) -> Option<Route> {
        match self {
            Arm::Historical { index, position } => Some(Route::Historical { position }),
            Arm::Current { index } => Some(Route::Current),
            Arm::Unknown => None,
        }
    }

    /// Where the arm leads; `None` for the arm that refuses.
    pub fn leads_to(&self) -> (to: Option<Route>)
        ensures
            to == self.target(),
    {
        match self {
            Arm::Historical { index, position } => Some(Route::Historical { position: *position }),
            Arm::Current { index } => Some(Route::Current),
            Arm::Unknown => None,
        }
    }

    /// Whether the arm's pattern admits what the version map holds.
    pub fn matches(&self, found: Option<usize>) -> (admitted: bool)
        ensures
            admitted == self.admits(found),
    {
        match (self, found) {
            (Arm::Historical { index, position }, Some(version)) => *index == version,
            (Arm::Historical { index, position }, None) => false,
            (Arm::Current { index }, Some(version)) => *index == version,
            (Arm::Current { index }, None) => true,
            (Arm::Unknown, Some(_)) => true,
            (Arm::Unknown, None) => false,
        }
    }
}

/// The entry gets an arm of its own: it names a historical type for another
/// version than the current one `last`.
pub open spec fn has_arm(entry: Version, last: usize) -> bool {
    entry.index != last && entry.path is Path
}

/// The arms for the historical versions, in the order of the entries.
pub open spec fn historical_arms(entries: Seq<Version>, last: usize) -> Seq<Arm>
    decreases entries.len(),
{
    if entries.len() == 0 {
        Seq::<Arm>::empty()
    } else {
        let front = historical_arms(entries.drop_last(), last);
        if has_arm(entries.last(), last) {
            front.push(
                Arm::Historical {
                    index: entries.last().index,
                    position: (entries.len() - 1) as usize,
                },
            )
        } else {
            front
        }
    }
}

/// The whole table: the historical arms, then the arm for the absent and the
/// current version, then the arm that refuses whatever is left.
pub open spec fn dispatch_arms(entries: Seq<Version>, last: usize) -> Seq<Arm> {
    historical_arms(entries, last).push(Arm::Current { index: last }).push(Arm::Unknown)
}

/// The arm at position `k` is the one taken: it is the first that admits what
/// the version map holds.
pub open spec fn selects(arms: Seq<Arm>, found: Option<usize>, k: int) -> bool {
    &&& 0 <= k < arms.len()
    &&& arms[k].admits(found)
    &&& forall|j: int| 0 <= j < k ==> !(#[trigger] arms[j]).admits(found)
}

/// Builds the dispatch table of a declaration list whose current version is
/// `last`.
pub fn dispatch_table(entries: &Vec<Version>, last: usize) -> (table: Vec<Arm>)
    ensures
        table@ == dispatch_arms(entries@, last),
{
    let mut table: Vec<Arm> = Vec::new();
    let mut i: usize = 0;
    while i < entries.len()
        invariant
            0 <= i <= entries.len(),
            table@ == historical_arms(entries@.take(i as int), last),
        decreases entries.len() - i,
    {
        assert(entries@.take(i + 1).drop_last() =~= entries@.take(i as int));
        assert(entries@.take(i + 1).last() == entries[i as int]);
        match &entries[i].path {
            PathOrSelf::Path(_) => {
                if entries[i].index != last {
                    table.push(Arm::Historical { index: entries[i].index, position: i });
                }
            },
            PathOrSelf::SelfType => {},
        }
        i += 1;
    }
    assert(entries@.take(i as int) =~= entries@);
    table.push(Arm::Current { index: last });
    table.push(Arm::Unknown);
    table
}

/// Finds the arm that is taken for what the version map holds: the first one
/// that admits it.
pub fn select(table: &Vec<Arm>, found: Option<usize>) -> (chosen: Option<usize>)
    ensures
        match chosen {
            Some(k) => selects(table@, found, k as int),
            None => forall|j: int| 0 <= j < table.len() ==> !(#[trigger] table[j]).admits(found),
        },
{
    let mut i: usize = 0;
    while i < table.len()
        invariant
            0 <= i <= table.len(),
            forall|j: int| 0 <= j < i ==> !(#[trigger] table[j]).admits(found),
        decreases table.len() - i,
    {
        if table[i].matches(found) {
            return Some(i);
        }
        i += 1;
    }
    None
}

/// Every historical arm stands for an entry that has an arm, the arms keep
/// the order of their entries, and every such entry has its arm.
pub proof fn lemma_historical_arms(entries: Seq<Version>, last: usize)
    requires
        entries.len() <= usize::MAX,
    ensures
        historical_arms(entries, last).len() <= entries.len(),
        forall|k: int|
            0 <= k < historical_arms(entries, last).len() ==> arm_of_entry(
                entries,
                last,
                #[trigger] historical_arms(entries, last)[k],
            ),
        forall|j: int, k: int|
            0 <= j < k < historical_arms(entries, last).len() ==> arm_position(
                #[trigger] historical_arms(entries, last)[j],
            ) < arm_position(#[trigger] historical_arms(entries, last)[k]),
        forall|i: int|
            0 <= i < entries.len() && has_arm(#[trigger] entries[i], last) ==> exists|k: int|
                0 <= k < historical_arms(entries, last).len() && arm_position(
                    #[trigger] historical_arms(entries, last)[k],
                ) == i,
    decreases entries.len(),
{
    if entries.len() > 0 {
        let front = entries.drop_last();
        let n = entries.len() - 1;
        let arms = historical_arms(entries, last);
        let before = historical_arms(front, last);
        lemma_historical_arms(front, last);
        assert forall|i: int| 0 <= i < n implies #[trigger] entries[i] == front[i] by {}
        assert forall|k: int| 0 <= k < before.len() implies arms[k] == before[k] by {}
        assert forall|k: int| 0 <= k < arms.len() implies arm_of_entry(
            entries,
            last,
            #[trigger] arms[k],
        ) by {
            if k < before.len() {
                assert(arm_of_entry(front, last, before[k]));
            }
        }
        assert forall|j: int, k: int| 0 <= j < k < arms.len() implies arm_position(
            #[trigger] arms[j],
        ) < arm_position(#[trigger] arms[k]) by {
            assert(arm_of_entry(front, last, before[j]));
            if k < before.len() {
                assert(arm_position(before[j]) < arm_position(before[k]));
            }
        }
        assert forall|i: int| 0 <= i < entries.len() && has_arm(
            #[trigger] entries[i],
            last,
        ) implies exists|k: int|
            0 <= k < arms.len() && arm_position(#[trigger] arms[k]) == i by {
            if i < n {
                assert(has_arm(front[i], last));
                let k = choose|k: int|
                    0 <= k < before.len() && arm_position(#[trigger] before[k]) == i;
                assert(arm_position(arms[k]) == i);
            } else {
                assert(arm_position(arms[arms.len() - 1]) == i);
            }
        }
    }
}

/// The position of the entry that a historical arm stands for.
pub open spec fn arm_position(arm: Arm) -> int {
    match arm {
        Arm::Historical { index, position } => position as int,
        _ => -1,
    }
}

/// The arm is the historical arm of one of the entries.
pub open spec fn arm_of_entry(entries: Seq<Version>, last: usize, arm: Arm) -> bool {
    arm matches Arm::Historical { index, position } && position < entries.len() && has_arm(
        entries[position as int],
        last,
    ) && entries[position as int].index == index
}

/// The table decides as resolution does: for whatever the version map holds,
/// the arm that is taken leads where the declaration list routes it. The list
/// is one that memory can hold, and `last` is its current version.
pub proof fn lemma_table_follows_routes(entries: Seq<Version>, last: usize, found: Option<usize>)
    requires
        entries.len() <= usize::MAX,
        self_version(entries) == Some(last),
    ensures
        exists|k: int|
            selects(dispatch_arms(entries, last), found, k) && (#[trigger] dispatch_arms(
                entries,
                last,
            )[k]).target() == route(Some(entries), found),
{
    let historical = historical_arms(entries, last);
    let arms = dispatch_arms(entries, last);
    let n = historical.len() as int;
    lemma_historical_arms(entries, last);
    assert forall|k: int| 0 <= k < n implies arms[k] == historical[k] by {}
    assert(arms[n] == Arm::Current { index: last });
    assert(arms[n + 1] == Arm::Unknown);
    match found {
        Some(version) if version != last => {
            lemma_historical_position(entries, version);
            match historical_position(entries, version) {
                Some(first) => {
                    assert(has_arm(entries[first], last));
                    let k = choose|k: int|
                        0 <= k < historical.len() && arm_position(#[trigger] historical[k])
                            == first;
                    assert(arm_of_entry(entries, last, historical[k]));
                    assert forall|j: int| 0 <= j < k implies !(#[trigger] arms[j]).admits(
                        found,
                    ) by {
                        assert(arm_of_entry(entries, last, historical[j]));
                        assert(arm_position(historical[j]) < arm_position(historical[k]));
                        assert(!declares_historical(
                            entries[arm_position(historical[j])],
                            version,
                        ));
                    }
                    assert(selects(arms, found, k) && arms[k].target() == route(
                        Some(entries),
                        found,
                    ));
                },
                None => {
                    assert forall|j: int| 0 <= j < n + 1 implies !(#[trigger] arms[j]).admits(
                        found,
                    ) by {
                        if j < n {
                            assert(arm_of_entry(entries, last, historical[j]));
                            assert(!declares_historical(
                                entries[arm_position(historical[j])],
                                version,
                            ));
                        }
                    }
                    assert(selects(arms, found, n + 1) && arms[n + 1].target() == route(
                        Some(entries),
                        found,
                    ));
                },
            }
        },
        _ => {
            assert forall|j: int| 0 <= j < n implies !(#[trigger] arms[j]).admits(found) by {
                assert(arm_of_entry(entries, last, historical[j]));
            }
            assert(selects(arms, found, n) && arms[n].target() == route(Some(entries), found));
        },
    }
}

} // verus!
