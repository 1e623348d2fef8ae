//! Tiny Necromancer: the discrete rules of a cemetery-management game.
//!
//! The library holds the tile grid, the settlement state and the rules that
//! move it: routing workers around obstructions, loose-material piles,
//! district staffing, construction, kiln production, research and the night
//! market. Continuous quantities (timers, suspicion, rendering) are driven by
//! the application around it.

pub mod tile;
pub mod kinds;
pub mod text_util;
pub mod policies;
pub mod world;
pub mod navigation;
pub mod workforce;
pub mod economy;
pub mod research;
pub mod upgrades;
pub mod data;
pub mod market;
pub mod production;
pub mod session;
pub mod movement;
pub mod jobs;
pub mod districts;
pub mod catalog;
pub mod progression;
pub mod trade;
pub mod validation;
pub mod targets;
pub mod logistics;
pub mod automation;
pub mod digging;
pub mod pressure;
pub mod raising;
pub mod alerts;
pub mod jobsite;
pub mod coverage;
pub mod names;
pub mod overlays;
