//! Rain falling on growing plants: vapour and plant mass move as particles.
pub mod rainfall_map;
pub mod symmetric_rule;
pub mod vapour;
