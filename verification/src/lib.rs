//! Simulation core of a top-down colony/farming game.
//!
//! The library tracks which grid tiles are occupied and by what, holds the
//! player's inventory and item selection, places buildings and pickups,
//! advances crop growth and a world clock, and drives worker agents through a
//! forage / employed / housed lifecycle.  All state lives in plain data; the
//! windowing, rendering and input layers sit outside and feed the library tile
//! coordinates, click events and tick deltas.
//!
//! Positions are fixed-point: one tile is 1000 milli-units.  Durations are
//! integer milliseconds.

pub mod geom;
pub mod timer;
pub mod world;
pub mod player;
pub mod gameui;
pub mod buildings;
pub mod crop;
pub mod worker;
pub mod sim;
