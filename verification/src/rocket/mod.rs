//! The star map: stars joined by one-way portals, and the way with the
//! fewest portals from one star to another.

pub mod chart;
pub mod graph;
pub mod search;
pub mod walk;
