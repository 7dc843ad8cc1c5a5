//! Dungeon narration texts: a mapping from a narrative category key to an
//! ordered pool of strings. A pool may be legitimately empty and a key may
//! be absent; both are recoverable authoring gaps, not fatal conditions.

use vstd::prelude::*;

verus! {

/// The closed set of narrative category keys.
#[derive(Clone, Copy, PartialEq, Eq, Structural, Hash, Debug)]
pub enum TextType {
    EnteredRoom,
    SearchingRoom,
    FoundLoot,
    CombatStarted,
    CombatVictory,
    LeftDungeon,
}

/// The pool of the first entry for `t` at or after index `i`, as a sequence
/// of character sequences; empty when no entry matches.
pub open spec fn pool_lookup_from(
    map: Seq<(TextType, Vec<String>)>,
    t: TextType,
    i: int,
) -> Seq<Seq<char>>
    decreases map.len() - i,
{
    if i >= map.len() {
        Seq::empty()
    } else if map[i].0 == t {
        map[i].1@.map_values(|s: String| s@)
    } else {
        pool_lookup_from(map, t, i + 1)
    }
}

proof fn lemma_pool_lookup_from_unique(map: Seq<(TextType, Vec<String>)>, k: int, i: int)
    requires
        forall|a: int, b: int| 0 <= a < b < map.len() ==> map[a].0 != map[b].0,
        0 <= i <= k < map.len(),
    ensures
        pool_lookup_from(map, map[k].0, i) == map[k].1@.map_values(|s: String| s@),
    decreases map.len() - i,
{
    if i < k {
        lemma_pool_lookup_from_unique(map, k, i + 1);
    }
}

/// The narration text pools, keyed by category.
#[derive(Debug)]
pub struct DungeonTexts {
    /// One entry per category; keys are unique.
    pub map: Vec<(TextType, Vec<String>)>,
}

impl DungeonTexts {
    /// Keys are unique, so each category names at most one pool.
    pub open spec fn wf(self) -> bool {
        forall|i: int, j: int| 0 <= i < j < self.map@.len() ==> self.map@[i].0 != self.map@[j].0
    }

    /// The pool for category `t`; a missing key and an empty pool are
    /// alike: both yield the empty pool.
    pub open spec fn pool(self, t: TextType) -> Seq<Seq<char>> {
        pool_lookup_from(self.map@, t, 0)
    }

    /// With unique category keys, the pool of a present category is exactly
    /// the string list of its entry.
    pub proof fn lemma_pool_unique(self, k: int)
        requires
            self.wf(),
            0 <= k < self.map@.len(),
        ensures
            self.pool(self.map@[k].0) == self.map@[k].1@.map_values(|s: String| s@),
    {
        lemma_pool_lookup_from_unique(self.map@, k, 0);
    }

    /// The strings of category `t`, or `None` when the key is absent.
    pub fn get(&self, t: TextType) -> (r: Option<&Vec<String>>)
        ensures
            match r {
                Some(v) => v@.map_values(|s: String| s@) == self.pool(t),
                None => self.pool(t).len() == 0,
            },
    {
        let mut i: usize = 0;
        while i < self.map.len()
            invariant
                i <= self.map@.len(),
                self.pool(t) == pool_lookup_from(self.map@, t, i as int),
            decreases self.map@.len() - i,
        {
            if self.map[i].0 == t {
                return Some(&self.map[i].1);
            }
            i = i + 1;
        }
        None
    }
}

} // verus!
