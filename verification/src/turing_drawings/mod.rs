//! Turing machines on hex grids stored as `Tile`s.
pub mod turing1;
pub mod turing2;
