//! Verified core of the Margin's Grip terrain pipeline: biome and class
//! tables, grid index arithmetic, presentation tallies and digests.

pub mod wrap;
pub mod biome;
pub mod coords;
pub mod resource_type;
pub mod classes;
pub mod flow;
pub mod mesh_grid;
pub mod perm_table;
pub mod presentation;
pub mod render_biomes;
pub mod rivers;
pub mod river_tree;
pub mod text;
pub mod visualization;
pub mod artifacts;
pub mod survey;

pub use artifacts::{validate_tag, ArtifactKind, InvalidTag, LayerManifest, LevelManifest};
pub use biome::{tile_has_fluid_surface, BiomeType, TileType};
pub use classes::{BoundaryType, ClimateClass, ElevationClass, MoistureClass, TerrainClass};
pub use coords::{ChunkCoord, DetailLevel, TileCoord};
pub use flow::{receiver_index, RiverCharacter, LOD_THRESHOLD_MACRO, LOD_THRESHOLD_MESO, LOD_THRESHOLD_MICRO, NO_FLOW};
pub use perm_table::{generate_permutation_table, permutation_table_to_u32};
pub use presentation::atmosphere::AtmosphereClass;
pub use presentation::grids::{RuntimeChunkPresentationGrids, RuntimeReducedGrid};
pub use presentation::landform::LandformClass;
pub use presentation::surface_palette::SurfacePaletteClass;
pub use presentation::water_state::SurfaceWaterState;
pub use presentation::zone::PlanetZone;
pub use resource_type::{ResourceType, TerrainBias};
pub use visualization::NoiseLayer;
pub use wrap::wrap_grid_x;
