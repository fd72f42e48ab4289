//! A hexagonal spatial-coordinate and grid-indexing library.
//!
//! Axial coordinates address the cells of a bounded, optionally
//! horizontally-wrapping hexagonal grid.  The library converts between
//! absolute addresses, relative offsets and cubic coordinates, computes
//! step distances, validates and repairs out-of-range addresses under
//! wraparound, enumerates rings and filled disks around a center, and
//! indexes a dense per-cell tile store.

pub mod capability;
pub mod coord;
pub mod map;
pub mod ring;
pub mod tile;
