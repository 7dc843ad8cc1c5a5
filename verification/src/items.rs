//! The item catalog: templates looked up by id, each carrying the grid
//! footprint the item occupies, and the outbound spawn signal.

use vstd::prelude::*;

use crate::positioning::Region;

verus! {

/// External entity identity for catalog items.
#[derive(Clone, Copy, PartialEq, Eq, Structural, Hash, Debug)]
pub struct ItemId(pub u64);

/// An item template: its identity and the footprint it occupies on a grid.
#[derive(Clone, Copy, PartialEq, Eq, Structural, Debug)]
pub struct Item {
    pub id: ItemId,
    pub width: u32,
    pub height: u32,
}

/// The template of the first catalog entry for `id` at or after index `i`.
pub open spec fn catalog_lookup_from(items: Seq<Item>, id: ItemId, i: int) -> Option<Item>
    decreases items.len() - i,
{
    if i >= items.len() {
        None
    } else if items[i].id == id {
        Some(items[i])
    } else {
        catalog_lookup_from(items, id, i + 1)
    }
}

/// The item catalog collaborator: resolves an item id to its template.
#[derive(Debug)]
pub struct ItemsData {
    pub items: Vec<Item>,
}

impl ItemsData {
    pub open spec fn lookup(self, id: ItemId) -> Option<Item> {
        catalog_lookup_from(self.items@, id, 0)
    }

    /// Resolves `id` to its template and footprint; `None` for an unknown
    /// id — referencing removed or unknown content is expected, not a
    /// fault.
    pub fn try_get_item(&self, id: ItemId) -> (r: Option<Item>)
        ensures
            r == self.lookup(id),
    {
        let mut i: usize = 0;
        while i < self.items.len()
            invariant
                i <= self.items@.len(),
                self.lookup(id) == catalog_lookup_from(self.items@, id, i as int),
            decreases self.items@.len() - i,
        {
            let item = self.items[i];
            if item.id == id {
                return Some(item);
            }
            i = i + 1;
        }
        None
    }
}

/// Outbound spawn signal: the item template and the region chosen for it.
#[derive(Clone, Copy, PartialEq, Eq, Structural, Debug)]
pub struct SpawnItemEvent {
    pub item: Item,
    pub coords: Region,
}

impl SpawnItemEvent {
    pub fn new(item: Item, coords: Region) -> (r: SpawnItemEvent)
        ensures
            r == (SpawnItemEvent { item, coords }),
    {
        SpawnItemEvent { item, coords }
    }
}

} // verus!
