//! The grid layout configuration: named rectangular grids plus the
//! equipment-slot mapping, and the layered resolution of the override
//! source, the default source and the built-in default.

use vstd::prelude::*;

use crate::positioning::{zero_region, Region};

verus! {

/// The closed set of equipment-slot identifiers.
#[derive(Clone, Copy, PartialEq, Eq, Structural, Hash, Debug)]
pub enum EquipmentSlot {
    Helmet,
    Armour,
    MainHand,
    OffHand,
    Boots,
}

/// The equipment panel: absolute panel bounds plus a mapping from each
/// equipment slot to a region relative to those bounds. The loader does not
/// validate that slot regions lie within the panel bounds.
#[derive(Debug)]
pub struct EquipmentGrid {
    /// The absolute coordinates of the equipment grid; coordinates of each
    /// of the individual slots are relative to this.
    pub coords: Region,
    /// The relative region of each slot; keys are unique.
    pub slots: Vec<(EquipmentSlot, Region)>,
}

/// The relative region of the first entry for `slot` at or after index `i`.
pub open spec fn slot_lookup_from(
    slots: Seq<(EquipmentSlot, Region)>,
    slot: EquipmentSlot,
    i: int,
) -> Option<Region>
    decreases slots.len() - i,
{
    if i >= slots.len() {
        None
    } else if slots[i].0 == slot {
        Some(slots[i].1)
    } else {
        slot_lookup_from(slots, slot, i + 1)
    }
}

impl EquipmentGrid {
    /// Slot keys are unique, so each slot names at most one region.
    pub open spec fn wf(self) -> bool {
        forall|i: int, j: int|
            0 <= i < j < self.slots@.len() ==> self.slots@[i].0 != self.slots@[j].0
    }

    pub open spec fn slot_lookup(self, slot: EquipmentSlot) -> Option<Region> {
        slot_lookup_from(self.slots@, slot, 0)
    }

    /// The region mapped to `slot`, relative to the panel bounds, or `None`
    /// when the slot is unmapped.
    pub fn slot_region(&self, slot: EquipmentSlot) -> (r: Option<Region>)
        ensures
            r == self.slot_lookup(slot),
    {
        let mut i: usize = 0;
        while i < self.slots.len()
            invariant
                i <= self.slots@.len(),
                self.slot_lookup(slot) == slot_lookup_from(self.slots@, slot, i as int),
            decreases self.slots@.len() - i,
        {
            let (s, region) = self.slots[i];
            if s == slot {
                return Some(region);
            }
            i = i + 1;
        }
        None
    }
}

proof fn lemma_slot_lookup_from_unique(
    slots: Seq<(EquipmentSlot, Region)>,
    k: int,
    i: int,
)
    requires
        forall|a: int, b: int| 0 <= a < b < slots.len() ==> slots[a].0 != slots[b].0,
        0 <= i <= k < slots.len(),
    ensures
        slot_lookup_from(slots, slots[k].0, i) == Some(slots[k].1),
    decreases slots.len() - i,
{
    if i < k {
        lemma_slot_lookup_from_unique(slots, k, i + 1);
    }
}

/// With unique slot keys, looking a mapped slot up yields exactly the
/// region of its entry.
pub proof fn lemma_slot_lookup_unique(grid: EquipmentGrid, k: int)
    requires
        grid.wf(),
        0 <= k < grid.slots@.len(),
    ensures
        grid.slot_lookup(grid.slots@[k].0) == Some(grid.slots@[k].1),
{
    lemma_slot_lookup_from_unique(grid.slots@, k, 0);
}

impl Default for EquipmentGrid {
    /// Degenerate panel bounds and no mapped slots.
    fn default() -> (r: EquipmentGrid)
        ensures
            r.coords == zero_region(),
            r.slots@.len() == 0,
    {
        EquipmentGrid { coords: Region::default(), slots: Vec::new() }
    }
}

/// The four named grids: each names an independent coordinate space, and the
/// loader does not validate cross-grid non-overlap. Immutable once loaded.
#[derive(Debug)]
pub struct GridConfig {
    /// An invisible grid above the inventory grid; this is where new items
    /// spawn in.
    pub drop_in: Region,
    /// This is where items are stored.
    pub inventory: Region,
    /// A small crafting window used for complex recipes (of more than two
    /// ingredients).
    pub crafting: Region,
    pub equipped: EquipmentGrid,
}

impl GridConfig {
    /// The built-in default: an inert layout of all-degenerate regions, a
    /// first-class valid configuration outcome.
    pub open spec fn is_builtin_default(self) -> bool {
        &&& self.drop_in == zero_region()
        &&& self.inventory == zero_region()
        &&& self.crafting == zero_region()
        &&& self.equipped.coords == zero_region()
        &&& self.equipped.slots@.len() == 0
    }

    /// Resolves the layered configuration sources; total, never fails
    /// outward. `override_config` is the parse outcome of the override
    /// source and is consulted only when that source exists; any failure
    /// there falls back directly to the built-in default, never to the
    /// default source. Without an override source, the default source's
    /// parse outcome is consulted the same way. The second component of the
    /// result reports whether the consulted source failed, which the caller
    /// logs as exactly one error.
    pub fn resolve_sources(
        override_present: bool,
        override_config: Option<GridConfig>,
        default_config: Option<GridConfig>,
    ) -> (r: (GridConfig, bool))
        ensures
            override_present ==> match override_config {
                Some(c) => r.0 == c && !r.1,
                None => r.0.is_builtin_default() && r.1,
            },
            !override_present ==> match default_config {
                Some(c) => r.0 == c && !r.1,
                None => r.0.is_builtin_default() && r.1,
            },
    {
        if override_present {
            match override_config {
                Some(c) => (c, false),
                None => (GridConfig::default(), true),
            }
        } else {
            match default_config {
                Some(c) => (c, false),
                None => (GridConfig::default(), true),
            }
        }
    }
}

impl Default for GridConfig {
    /// The built-in default configuration.
    fn default() -> (r: GridConfig)
        ensures
            r.is_builtin_default(),
    {
        GridConfig {
            drop_in: Region::default(),
            inventory: Region::default(),
            crafting: Region::default(),
            equipped: EquipmentGrid::default(),
        }
    }
}

} // verus!
