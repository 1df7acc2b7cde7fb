//! Stigmergic foraging: ants search for food, carry it home and coordinate
//! through decaying scent markers. Positions are integer coordinates, so
//! distance tests are exact; directions are fixed-point vectors of unit
//! length up to rounding.

pub mod vector;
pub mod marker;
pub mod marker_map;
pub mod random;
pub mod food;
pub mod util;
pub mod ant_hill;
pub mod ant;
pub mod colony;
pub mod world;
