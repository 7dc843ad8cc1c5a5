use grid_inventory::config_grid::{EquipmentGrid, EquipmentSlot, GridConfig};
use grid_inventory::dungeon_texts::{DungeonTexts, TextType};
use grid_inventory::event_handling::{
    handle_sim_loot, handle_sim_message, pick_random_from_series, SimLootEvent, SimMessageEvent,
};
use grid_inventory::free_space::find_free_space;
use grid_inventory::items::{Item, ItemId, ItemsData, SpawnItemEvent};
use grid_inventory::positioning::Region;

fn region(origin_row: u32, origin_col: u32, width: u32, height: u32) -> Region {
    Region { origin_row, origin_col, width, height }
}

#[test]
fn intersects_is_symmetric_on_overlapping_regions() {
    let a = region(0, 0, 3, 3);
    let b = region(2, 2, 3, 3);
    assert!(a.intersects(&b));
    assert!(b.intersects(&a));
}

#[test]
fn intersects_is_symmetric_on_disjoint_regions() {
    let a = region(0, 0, 2, 2);
    let b = region(0, 5, 2, 2);
    assert!(!a.intersects(&b));
    assert!(!b.intersects(&a));
}

#[test]
fn nondegenerate_region_intersects_itself() {
    let a = region(4, 7, 1, 2);
    assert!(a.intersects(&a));
}

#[test]
fn degenerate_region_intersects_nothing() {
    let zero_width = region(1, 1, 0, 5);
    let zero_height = region(1, 1, 5, 0);
    let solid = region(0, 0, 10, 10);
    assert!(!zero_width.intersects(&solid));
    assert!(!solid.intersects(&zero_width));
    assert!(!zero_height.intersects(&solid));
    assert!(!zero_width.intersects(&zero_width));
}

#[test]
fn touching_edges_do_not_intersect() {
    let a = region(0, 0, 2, 2);
    let b = region(0, 2, 2, 2);
    assert!(!a.intersects(&b));
}

#[test]
fn contains_full_and_partial() {
    let bound = region(0, 0, 4, 4);
    assert!(bound.contains(&region(1, 1, 2, 2)));
    assert!(bound.contains(&bound));
    assert!(!bound.contains(&region(3, 3, 2, 2)));
    assert!(!region(1, 1, 2, 2).contains(&bound));
}

#[test]
fn degenerate_region_contained_only_in_itself() {
    let degenerate = region(1, 1, 0, 0);
    let bound = region(0, 0, 4, 4);
    assert!(!bound.contains(&degenerate));
    assert!(degenerate.contains(&degenerate));
}

#[test]
fn empty_grid_places_at_origin() {
    let bound = region(0, 0, 4, 4);
    let occupied: Vec<Region> = Vec::new();
    let placed = find_free_space(&bound, 2, 3, &occupied);
    assert_eq!(placed, Some(region(0, 0, 2, 3)));
}

#[test]
fn empty_grid_with_offset_origin_places_at_origin() {
    let bound = region(5, 7, 4, 4);
    let occupied: Vec<Region> = Vec::new();
    let placed = find_free_space(&bound, 4, 4, &occupied);
    assert_eq!(placed, Some(region(5, 7, 4, 4)));
}

#[test]
fn fully_covered_grid_places_nothing() {
    let bound = region(0, 0, 4, 4);
    let occupied = vec![region(0, 0, 4, 4)];
    assert_eq!(find_free_space(&bound, 1, 1, &occupied), None);
    assert_eq!(find_free_space(&bound, 2, 2, &occupied), None);
}

#[test]
fn footprint_larger_than_bound_places_nothing() {
    let bound = region(0, 0, 4, 4);
    let occupied: Vec<Region> = Vec::new();
    assert_eq!(find_free_space(&bound, 5, 1, &occupied), None);
}

#[test]
fn scan_order_is_row_major_column_fastest() {
    let bound = region(0, 0, 4, 4);
    let mut occupied: Vec<Region> = Vec::new();

    let first = find_free_space(&bound, 2, 2, &occupied).unwrap();
    assert_eq!(first, region(0, 0, 2, 2));
    occupied.push(first);

    let second = find_free_space(&bound, 2, 2, &occupied).unwrap();
    assert_eq!(second, region(0, 2, 2, 2));
    occupied.push(second);

    let third = find_free_space(&bound, 1, 1, &occupied).unwrap();
    assert_eq!(third, region(2, 0, 1, 1));
}

#[test]
fn find_free_space_is_deterministic() {
    let bound = region(0, 0, 6, 5);
    let occupied = vec![region(0, 0, 3, 3), region(0, 3, 2, 1)];
    let a = find_free_space(&bound, 2, 2, &occupied);
    let b = find_free_space(&bound, 2, 2, &occupied);
    assert_eq!(a, b);
    assert_eq!(a, Some(region(1, 3, 2, 2)));
}

fn sample_config() -> GridConfig {
    GridConfig {
        drop_in: region(0, 0, 6, 1),
        inventory: region(1, 0, 6, 5),
        crafting: region(1, 7, 2, 2),
        equipped: EquipmentGrid {
            coords: region(0, 10, 4, 4),
            slots: vec![
                (EquipmentSlot::Helmet, region(0, 1, 1, 1)),
                (EquipmentSlot::MainHand, region(1, 0, 1, 2)),
            ],
        },
    }
}

fn assert_is_builtin_default(config: &GridConfig) {
    let zero = region(0, 0, 0, 0);
    assert_eq!(config.drop_in, zero);
    assert_eq!(config.inventory, zero);
    assert_eq!(config.crafting, zero);
    assert_eq!(config.equipped.coords, zero);
    assert_eq!(config.equipped.slots.len(), 0);
}

#[test]
fn invalid_override_falls_back_to_builtin_not_default_source() {
    let (config, error_logged) = GridConfig::resolve_sources(true, None, Some(sample_config()));
    assert_is_builtin_default(&config);
    assert!(error_logged);
}

#[test]
fn valid_override_wins() {
    let (config, error_logged) = GridConfig::resolve_sources(true, Some(sample_config()), None);
    assert_eq!(config.drop_in, region(0, 0, 6, 1));
    assert_eq!(config.inventory, region(1, 0, 6, 5));
    assert_eq!(config.crafting, region(1, 7, 2, 2));
    assert!(!error_logged);
}

#[test]
fn no_override_valid_default_round_trips_field_for_field() {
    let expected = sample_config();
    let (config, error_logged) = GridConfig::resolve_sources(false, None, Some(sample_config()));
    assert!(!error_logged);
    assert_eq!(config.drop_in, expected.drop_in);
    assert_eq!(config.inventory, expected.inventory);
    assert_eq!(config.crafting, expected.crafting);
    assert_eq!(config.equipped.coords, expected.equipped.coords);
    assert_eq!(config.equipped.slots.len(), expected.equipped.slots.len());
    for i in 0..expected.equipped.slots.len() {
        assert_eq!(config.equipped.slots[i], expected.equipped.slots[i]);
    }
}

#[test]
fn no_override_invalid_default_falls_back_to_builtin() {
    let (config, error_logged) = GridConfig::resolve_sources(false, None, None);
    assert_is_builtin_default(&config);
    assert!(error_logged);
}

#[test]
fn builtin_default_is_all_degenerate() {
    assert_is_builtin_default(&GridConfig::default());
}

#[test]
fn equipment_slot_lookup() {
    let grid = sample_config().equipped;
    assert_eq!(grid.slot_region(EquipmentSlot::Helmet), Some(region(0, 1, 1, 1)));
    assert_eq!(grid.slot_region(EquipmentSlot::MainHand), Some(region(1, 0, 1, 2)));
    assert_eq!(grid.slot_region(EquipmentSlot::Boots), None);
}

#[test]
fn pick_from_empty_pool_is_none() {
    let strings: Vec<String> = Vec::new();
    assert_eq!(pick_random_from_series(&strings), None);
}

#[test]
fn pick_from_singleton_pool_is_that_string() {
    let strings = vec![String::from("the door creaks open")];
    assert_eq!(pick_random_from_series(&strings), Some(String::from("the door creaks open")));
}

#[test]
fn pick_from_pool_is_a_member() {
    let strings = vec![
        String::from("a cold draft"),
        String::from("distant footsteps"),
        String::from("dripping water"),
    ];
    for _ in 0..32 {
        let picked = pick_random_from_series(&strings).unwrap();
        assert!(strings.contains(&picked));
    }
}

fn sample_texts() -> DungeonTexts {
    DungeonTexts {
        map: vec![
            (TextType::EnteredRoom, vec![String::from("you step into the gloom")]),
            (TextType::FoundLoot, vec![
                String::from("a glint of gold"),
                String::from("something rattles in a chest"),
            ]),
            (TextType::SearchingRoom, Vec::new()),
        ],
    }
}

#[test]
fn narration_singleton_category_always_emits_that_string() {
    let texts = sample_texts();
    let events = vec![SimMessageEvent(TextType::EnteredRoom)];
    for _ in 0..8 {
        let report = handle_sim_message(&events, &texts);
        assert_eq!(report.errors, 0);
        assert_eq!(report.emitted, vec![String::from("you step into the gloom")]);
    }
}

#[test]
fn narration_missing_category_emits_nothing_and_logs_one_error() {
    let texts = sample_texts();
    let events = vec![SimMessageEvent(TextType::CombatVictory)];
    let report = handle_sim_message(&events, &texts);
    assert_eq!(report.emitted.len(), 0);
    assert_eq!(report.errors, 1);
}

#[test]
fn narration_empty_category_emits_nothing_and_logs_one_error() {
    let texts = sample_texts();
    let events = vec![SimMessageEvent(TextType::SearchingRoom)];
    let report = handle_sim_message(&events, &texts);
    assert_eq!(report.emitted.len(), 0);
    assert_eq!(report.errors, 1);
}

#[test]
fn narration_drains_all_events_in_order() {
    let texts = sample_texts();
    let events = vec![
        SimMessageEvent(TextType::EnteredRoom),
        SimMessageEvent(TextType::SearchingRoom),
        SimMessageEvent(TextType::FoundLoot),
        SimMessageEvent(TextType::EnteredRoom),
    ];
    let report = handle_sim_message(&events, &texts);
    assert_eq!(report.errors, 1);
    assert_eq!(report.emitted.len(), 3);
    assert_eq!(report.emitted[0], String::from("you step into the gloom"));
    let loot_pool = vec![
        String::from("a glint of gold"),
        String::from("something rattles in a chest"),
    ];
    assert!(loot_pool.contains(&report.emitted[1]));
    assert_eq!(report.emitted[2], String::from("you step into the gloom"));
}

fn sample_catalog() -> ItemsData {
    ItemsData {
        items: vec![
            Item { id: ItemId(1), width: 2, height: 2 },
            Item { id: ItemId(2), width: 1, height: 1 },
            Item { id: ItemId(3), width: 4, height: 1 },
        ],
    }
}

#[test]
fn loot_end_to_end_fills_a_grid_in_scan_order() {
    let catalog = sample_catalog();
    let grid = region(0, 0, 4, 4);
    let events = vec![
        SimLootEvent(ItemId(1)),
        SimLootEvent(ItemId(1)),
        SimLootEvent(ItemId(2)),
    ];
    let spawns = handle_sim_loot(&events, &catalog, &grid, Vec::new());
    assert_eq!(spawns.len(), 3);
    assert_eq!(spawns[0], SpawnItemEvent {
        item: Item { id: ItemId(1), width: 2, height: 2 },
        coords: region(0, 0, 2, 2),
    });
    assert_eq!(spawns[1], SpawnItemEvent {
        item: Item { id: ItemId(1), width: 2, height: 2 },
        coords: region(0, 2, 2, 2),
    });
    assert_eq!(spawns[2], SpawnItemEvent {
        item: Item { id: ItemId(2), width: 1, height: 1 },
        coords: region(2, 0, 1, 1),
    });
}

#[test]
fn loot_over_capacity_spawns_exactly_capacity_and_drops_the_rest() {
    let catalog = sample_catalog();
    let grid = region(0, 0, 4, 4);
    // Six requests for a 2x2 footprint against a grid with room for
    // exactly four non-overlapping placements.
    let events = vec![SimLootEvent(ItemId(1)); 6];
    let spawns = handle_sim_loot(&events, &catalog, &grid, Vec::new());
    assert_eq!(spawns.len(), 4);
    assert_eq!(spawns[0].coords, region(0, 0, 2, 2));
    assert_eq!(spawns[1].coords, region(0, 2, 2, 2));
    assert_eq!(spawns[2].coords, region(2, 0, 2, 2));
    assert_eq!(spawns[3].coords, region(2, 2, 2, 2));
    for a in 0..spawns.len() {
        for b in 0..spawns.len() {
            if a != b {
                assert!(!spawns[a].coords.intersects(&spawns[b].coords));
            }
        }
    }
}

#[test]
fn loot_unresolvable_id_is_skipped_silently() {
    let catalog = sample_catalog();
    let grid = region(0, 0, 4, 4);
    let events = vec![
        SimLootEvent(ItemId(99)),
        SimLootEvent(ItemId(2)),
    ];
    let spawns = handle_sim_loot(&events, &catalog, &grid, Vec::new());
    assert_eq!(spawns.len(), 1);
    assert_eq!(spawns[0].item.id, ItemId(2));
    assert_eq!(spawns[0].coords, region(0, 0, 1, 1));
}

#[test]
fn loot_respects_existing_occupancy() {
    let catalog = sample_catalog();
    let grid = region(0, 0, 4, 4);
    let occupied = vec![region(0, 0, 4, 2)];
    let events = vec![SimLootEvent(ItemId(3))];
    let spawns = handle_sim_loot(&events, &catalog, &grid, occupied);
    assert_eq!(spawns.len(), 1);
    assert_eq!(spawns[0].coords, region(2, 0, 4, 1));
}

#[test]
fn catalog_lookup_hits_and_misses() {
    let catalog = sample_catalog();
    assert_eq!(
        catalog.try_get_item(ItemId(2)),
        Some(Item { id: ItemId(2), width: 1, height: 1 })
    );
    assert_eq!(catalog.try_get_item(ItemId(42)), None);
}

#[test]
fn texts_get_returns_pool_or_none() {
    let texts = sample_texts();
    let pool = texts.get(TextType::FoundLoot).unwrap();
    assert_eq!(pool.len(), 2);
    assert!(texts.get(TextType::LeftDungeon).is_none());
}

#[test]
fn region_default_is_degenerate() {
    assert_eq!(Region::default(), Region { origin_row: 0, origin_col: 0, width: 0, height: 0 });
}

#[test]
fn region_is_well_formed_bounds() {
    assert!(Region { origin_row: 0, origin_col: 0, width: 4, height: 4 }.is_well_formed());
    assert!(!Region { origin_row: u32::MAX, origin_col: 0, width: 1, height: 1 }.is_well_formed());
}
