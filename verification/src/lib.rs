//! Hexagonal cellular automata: hex coordinates, map storage and the rules
//! of several simulations.
use vstd::prelude::*;

pub mod axial_tile;
pub mod bit_particles;
pub mod blobs;
pub mod builders;
pub mod ca;
pub mod coords;
pub mod falling_sand;
pub mod falling_sand_v2;
pub mod features;
pub mod growth;
pub mod hexgrid_view;
pub mod hexmap;
pub mod hive;
pub mod independent_pairs;
pub mod pairs;
pub mod probabilities;
pub mod rainfall;
pub mod rng;
pub mod sim2;
pub mod simulation;
pub mod taskstream;
pub mod tiled;
pub mod sunburn;
pub mod tile;
pub mod torus_tile;
pub mod tumbler;
pub mod tumblers;
pub mod turing;
pub mod turing_drawings;

pub use axial_tile::AxialTile;
pub use bit_particles::BitParticles;
pub use features::FeatureAccumulator;
pub use hexgrid_view::{CellView, HexgridView};
pub use coords::{Direction, DirectionSet, Neighbourhood};
pub use rng::SimRng;
pub use simulation::Simulation;
pub use torus_tile::{NeighbourIter as TorusNeighbourIter, TorusTile, SIZE};

verus! {

} // verus!
