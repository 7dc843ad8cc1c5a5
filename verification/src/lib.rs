//! Spatial inventory core: named rectangular grids loaded from layered
//! configuration sources, a deterministic first-fit free-space search, and
//! the per-tick handlers that turn narration and loot requests into outbound
//! signals.

pub mod config_grid;
pub mod dungeon_texts;
pub mod event_handling;
pub mod free_space;
pub mod items;
pub mod positioning;
