//! The hive: vapour drifting over a map of walls and objects.
pub mod hive_map;
