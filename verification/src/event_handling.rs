//! Per-tick event handlers: drain the tick's narration and loot requests in
//! arrival order and turn them into narration strings and spawn signals,
//! skipping each unresolvable or unplaceable request without affecting the
//! rest of the tick.

use vstd::prelude::*;

use rand::Rng;

use crate::dungeon_texts::{DungeonTexts, TextType};
use crate::free_space::{find_free_space, first_fit, lemma_first_fit_ok, placement_ok};
use crate::items::{catalog_lookup_from, Item, ItemId, ItemsData, SpawnItemEvent};
use crate::positioning::{lemma_intersects_symmetric, Region};

verus! {

/// Cause a message to be printed and maybe a sound to be played.
#[derive(Clone, Copy, PartialEq, Eq, Structural, Debug)]
pub struct SimMessageEvent(pub TextType);

/// Handle a looting session.
#[derive(Clone, Copy, PartialEq, Eq, Structural, Debug)]
pub struct SimLootEvent(pub ItemId);

/// Relies on rand::thread_rng and rand::Rng::gen_range: sampling the
/// non-empty range `0..n` yields a value of that range.
#[verifier::external_body]
fn random_index_below(n: usize) -> (r: usize)
    requires
        n >= 1,
    ensures
        r < n,
{
    rand::thread_rng().gen_range(0..n)
}

/// Uniformly picks one string from `strings`; `None` exactly when the pool
/// is empty, which is a recoverable condition, not a fault. A pool of
/// exactly one string always yields that string.
pub fn pick_random_from_series(strings: &Vec<String>) -> (r: Option<String>)
    ensures
        r is None <==> strings@.len() == 0,
        match r {
            Some(s) => exists|i: int| 0 <= i < strings@.len() && s@ == strings@[i]@,
            None => strings@.len() == 0,
        },
        strings@.len() == 1 ==> (r matches Some(s) && s@ == strings@[0]@),
{
    if strings.len() == 0 {
        None
    } else {
        let idx = random_index_below(strings.len());
        let s = strings[idx].clone();
        proof {
            assert(s@ == strings@[idx as int]@);
        }
        Some(s)
    }
}

/// The number of events at or after index `i` whose category's pool is
/// missing or empty — each is an authoring defect logged as one error.
pub open spec fn missing_text_count(
    events: Seq<SimMessageEvent>,
    texts: DungeonTexts,
    i: int,
) -> int
    decreases events.len() - i,
{
    if i >= events.len() {
        0
    } else if texts.pool(events[i].0).len() == 0 {
        1 + missing_text_count(events, texts, i + 1)
    } else {
        missing_text_count(events, texts, i + 1)
    }
}

/// The pools of the events at or after index `i` whose category has a
/// non-empty pool, in arrival order: one narration string is emitted from
/// each of them.
pub open spec fn emitted_pools_from(
    events: Seq<SimMessageEvent>,
    texts: DungeonTexts,
    i: int,
) -> Seq<Seq<Seq<char>>>
    decreases events.len() - i,
{
    if i >= events.len() {
        Seq::empty()
    } else if texts.pool(events[i].0).len() == 0 {
        emitted_pools_from(events, texts, i + 1)
    } else {
        seq![texts.pool(events[i].0)] + emitted_pools_from(events, texts, i + 1)
    }
}

pub open spec fn emitted_pools(events: Seq<SimMessageEvent>, texts: DungeonTexts) -> Seq<
    Seq<Seq<char>>,
> {
    emitted_pools_from(events, texts, 0)
}

/// Every event either emits one string or counts one error.
pub proof fn lemma_narration_counts(events: Seq<SimMessageEvent>, texts: DungeonTexts, i: int)
    requires
        0 <= i <= events.len(),
    ensures
        emitted_pools_from(events, texts, i).len() + missing_text_count(events, texts, i)
            == events.len() - i,
    decreases events.len() - i,
{
    if i < events.len() {
        lemma_narration_counts(events, texts, i + 1);
    }
}

/// What one tick's narration handling produced: the strings for the
/// narration sink in arrival order, and the number of errors to log.
pub struct NarrationReport {
    pub emitted: Vec<String>,
    pub errors: usize,
}

/// Drains the tick's narration events exactly once, in arrival order. An
/// event whose category is missing or has an empty pool emits nothing and
/// counts one error; every other event emits one string picked uniformly
/// from its category's pool. A category with exactly one string always
/// emits that string.
pub fn handle_sim_message(events: &Vec<SimMessageEvent>, texts: &DungeonTexts) -> (r:
    NarrationReport)
    ensures
        r.errors == missing_text_count(events@, *texts, 0),
        r.emitted@.len() + r.errors == events@.len(),
        r.emitted@.len() == emitted_pools(events@, *texts).len(),
        forall|k: int|
            0 <= k < r.emitted@.len() ==> emitted_pools(events@, *texts)[k].contains(
                #[trigger] r.emitted@[k]@,
            ),
        forall|k: int|
            0 <= k < r.emitted@.len() && emitted_pools(events@, *texts)[k].len() == 1
                ==> #[trigger] r.emitted@[k]@ == emitted_pools(events@, *texts)[k][0],
{
    let mut emitted: Vec<String> = Vec::new();
    let mut errors: usize = 0;
    let ghost mut pools_done: Seq<Seq<Seq<char>>> = Seq::empty();
    let mut i: usize = 0;
    while i < events.len()
        invariant
            i <= events@.len(),
            errors <= i,
            missing_text_count(events@, *texts, 0) == errors + missing_text_count(
                events@,
                *texts,
                i as int,
            ),
            emitted@.len() == pools_done.len(),
            emitted_pools(events@, *texts) == pools_done + emitted_pools_from(
                events@,
                *texts,
                i as int,
            ),
            forall|k: int|
                0 <= k < emitted@.len() ==> pools_done[k].contains(#[trigger] emitted@[k]@),
        decreases events@.len() - i,
    {
        let ev = events[i];
        let ghost pool = texts.pool(ev.0);
        match texts.get(ev.0) {
            Some(pool_vec) => {
                if pool_vec.len() == 0 {
                    proof {
                        assert(pool.len() == 0);
                    }
                    errors = errors + 1;
                } else {
                    proof {
                        assert(pool.len() == pool_vec@.len());
                    }
                    if let Some(s) = pick_random_from_series(pool_vec) {
                        proof {
                            let j = choose|j: int|
                                0 <= j < pool_vec@.len() && s@ == pool_vec@[j]@;
                            assert(pool[j] == pool_vec@[j]@);
                            assert(pool.contains(s@));
                            let ghost done_before = pools_done;
                            pools_done = pools_done.push(pool);
                            assert(done_before + (seq![pool] + emitted_pools_from(
                                events@,
                                *texts,
                                i + 1,
                            )) =~= pools_done + emitted_pools_from(events@, *texts, i + 1));
                        }
                        emitted.push(s);
                    } else {
                        proof {
                            assert(false);
                        }
                    }
                }
            },
            None => {
                proof {
                    assert(pool.len() == 0);
                }
                errors = errors + 1;
            },
        }
        i = i + 1;
    }
    proof {
        lemma_narration_counts(events@, *texts, 0);
        assert(pools_done + emitted_pools_from(events@, *texts, events@.len() as int)
            =~= pools_done);
    }
    NarrationReport { emitted, errors }
}

/// The spawn signals produced by the loot events at or after index `i`,
/// with `occupied` the occupancy snapshot seen so far: an unresolvable id
/// or a full grid drops the event silently; a successful placement emits a
/// spawn signal and adds its region to the occupancy seen by later events.
pub open spec fn loot_spawns_from(
    events: Seq<SimLootEvent>,
    items: Seq<Item>,
    grid: Region,
    occupied: Seq<Region>,
    i: int,
) -> Seq<SpawnItemEvent>
    decreases events.len() - i,
{
    if i >= events.len() {
        Seq::empty()
    } else {
        match catalog_lookup_from(items, events[i].0, 0) {
            None => loot_spawns_from(events, items, grid, occupied, i + 1),
            Some(item) => match first_fit(grid, item.width, item.height, occupied) {
                None => loot_spawns_from(events, items, grid, occupied, i + 1),
                Some(region) => seq![SpawnItemEvent { item, coords: region }]
                    + loot_spawns_from(events, items, grid, occupied.push(region), i + 1),
            },
        }
    }
}

pub open spec fn loot_spawns(
    events: Seq<SimLootEvent>,
    items: Seq<Item>,
    grid: Region,
    occupied: Seq<Region>,
) -> Seq<SpawnItemEvent> {
    loot_spawns_from(events, items, grid, occupied, 0)
}

/// Drains the tick's loot events exactly once, in arrival order: each id is
/// resolved through the item catalog (an unresolvable id is skipped
/// silently — referencing unknown content is expected), the item's
/// footprint is placed in the first free space of `grid`, counting this
/// tick's earlier placements as occupied, and a spawn signal is emitted; a
/// full grid drops the request without emitting anything and without
/// raising an error. The result is a deterministic function of the inputs.
pub fn handle_sim_loot(
    events: &Vec<SimLootEvent>,
    items_data: &ItemsData,
    grid: &Region,
    occupied: Vec<Region>,
) -> (spawns: Vec<SpawnItemEvent>)
    requires
        grid.wf(),
    ensures
        spawns@ == loot_spawns(events@, items_data.items@, *grid, occupied@),
{
    let ghost occ0 = occupied@;
    let mut occ = occupied;
    let mut spawns: Vec<SpawnItemEvent> = Vec::new();
    let mut i: usize = 0;
    while i < events.len()
        invariant
            i <= events@.len(),
            grid.wf(),
            loot_spawns(events@, items_data.items@, *grid, occ0) == spawns@ + loot_spawns_from(
                events@,
                items_data.items@,
                *grid,
                occ@,
                i as int,
            ),
        decreases events@.len() - i,
    {
        let ev = events[i];
        if let Some(item) = items_data.try_get_item(ev.0) {
            if let Some(region) = find_free_space(grid, item.width, item.height, &occ) {
                let ghost occ_before = occ@;
                let ghost spawns_before = spawns@;
                let spawn = SpawnItemEvent::new(item, region);
                spawns.push(spawn);
                occ.push(region);
                proof {
                    assert(spawns_before + (seq![spawn] + loot_spawns_from(
                        events@,
                        items_data.items@,
                        *grid,
                        occ_before.push(region),
                        i + 1,
                    )) =~= spawns@ + loot_spawns_from(
                        events@,
                        items_data.items@,
                        *grid,
                        occ@,
                        i + 1,
                    ));
                }
            }
        }
        i = i + 1;
    }
    proof {
        assert(spawns@ + loot_spawns_from(
            events@,
            items_data.items@,
            *grid,
            occ@,
            events@.len() as int,
        ) =~= spawns@);
    }
    spawns
}

/// The spawn signals `s` are acceptable for grid bound `grid` and initial
/// occupancy `occupied`: each signal's region has its item's footprint and
/// lies inside the grid bound, overlaps no initially occupied region, and
/// overlaps the region of no other signal.
pub open spec fn spawns_acceptable(grid: Region, occupied: Seq<Region>, s: Seq<SpawnItemEvent>) -> bool {
    &&& forall|a: int|
        0 <= a < s.len() ==> grid.contains_spec((#[trigger] s[a]).coords) && s[a].coords.width
            == s[a].item.width && s[a].coords.height == s[a].item.height
    &&& forall|a: int, j: int|
        0 <= a < s.len() && 0 <= j < occupied.len() ==> !(#[trigger] s[a].coords.intersects_spec(
            #[trigger] occupied[j],
        ))
    &&& forall|a: int, b: int|
        0 <= a < b < s.len() ==> !(#[trigger] s[a]).coords.intersects_spec(
            (#[trigger] s[b]).coords,
        )
}

proof fn lemma_loot_spawns_from_acceptable(
    events: Seq<SimLootEvent>,
    items: Seq<Item>,
    grid: Region,
    occupied: Seq<Region>,
    i: int,
)
    requires
        0 <= i <= events.len(),
    ensures
        spawns_acceptable(grid, occupied, loot_spawns_from(events, items, grid, occupied, i)),
        loot_spawns_from(events, items, grid, occupied, i).len() <= events.len() - i,
    decreases events.len() - i,
{
    if i >= events.len() {
    } else {
        match catalog_lookup_from(items, events[i].0, 0) {
            None => {
                lemma_loot_spawns_from_acceptable(events, items, grid, occupied, i + 1);
            },
            Some(item) => {
                lemma_first_fit_ok(grid, item.width, item.height, occupied);
                match first_fit(grid, item.width, item.height, occupied) {
                    None => {
                        lemma_loot_spawns_from_acceptable(events, items, grid, occupied, i + 1);
                    },
                    Some(region) => {
                        let occ2 = occupied.push(region);
                        let rest = loot_spawns_from(events, items, grid, occ2, i + 1);
                        let spawn = SpawnItemEvent { item, coords: region };
                        let s = loot_spawns_from(events, items, grid, occupied, i);
                        lemma_loot_spawns_from_acceptable(events, items, grid, occ2, i + 1);
                        assert(s =~= seq![spawn] + rest);
                        assert(placement_ok(grid, occupied, region));
                        assert forall|a: int| 0 <= a < s.len() implies grid.contains_spec(
                            (#[trigger] s[a]).coords,
                        ) && s[a].coords.width == s[a].item.width && s[a].coords.height
                            == s[a].item.height by {
                            if a > 0 {
                                assert(s[a] == rest[a - 1]);
                            }
                        }
                        assert forall|a: int, j: int|
                            0 <= a < s.len() && 0 <= j < occupied.len() implies !(
                        #[trigger] s[a].coords.intersects_spec(#[trigger] occupied[j])) by {
                            if a == 0 {
                                assert(!region.intersects_spec(occupied[j]));
                            } else {
                                assert(s[a] == rest[a - 1]);
                                assert(occ2[j] == occupied[j]);
                                assert(!rest[a - 1].coords.intersects_spec(occ2[j]));
                            }
                        }
                        assert forall|a: int, b: int| 0 <= a < b < s.len() implies !(
                        #[trigger] s[a]).coords.intersects_spec((#[trigger] s[b]).coords) by {
                            if a == 0 {
                                assert(s[b] == rest[b - 1]);
                                assert(occ2[occupied.len() as int] == region);
                                assert(!rest[b - 1].coords.intersects_spec(region));
                                lemma_intersects_symmetric(region, rest[b - 1].coords);
                            } else {
                                assert(s[a] == rest[a - 1]);
                                assert(s[b] == rest[b - 1]);
                            }
                        }
                    },
                }
            },
        }
    }
}

/// Law of one tick's loot handling: no more spawn signals are emitted than
/// loot events arrived, and every emitted signal carries a region of its
/// item's footprint that lies inside the grid bound, overlaps no initially
/// occupied region, and overlaps no other signal of the same tick.
pub proof fn lemma_loot_spawns_acceptable(
    events: Seq<SimLootEvent>,
    items: Seq<Item>,
    grid: Region,
    occupied: Seq<Region>,
)
    ensures
        spawns_acceptable(grid, occupied, loot_spawns(events, items, grid, occupied)),
        loot_spawns(events, items, grid, occupied).len() <= events.len(),
{
    lemma_loot_spawns_from_acceptable(events, items, grid, occupied, 0);
}

} // verus!
