//! Runtime chunk presentation: the classes a chunk is shown with, the
//! reduced class grids, their digests, and the tallies that pick a chunk's
//! dominant classes.
pub mod atmosphere;
pub mod landform;
pub mod surface_palette;
pub mod water_state;
pub mod zone;
pub mod biomes;
pub mod digest;
pub mod grids;
pub mod tally;
