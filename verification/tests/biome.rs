use margins_grip::biome::tile_has_fluid_surface;
use margins_grip::coords::{ChunkCoord, DetailLevel, TileCoord};
use margins_grip::presentation::biomes::{is_frozen_biome, is_volcanic_biome};
use margins_grip::render_biomes;
use margins_grip::resource_type::{ResourceType, TerrainBias};
use margins_grip::TileType;

#[test]
fn fluid_surface_tiles_are_semantic_not_elevation_based() {
    assert!(tile_has_fluid_surface(TileType::Sea));
    assert!(tile_has_fluid_surface(TileType::DeepOcean));
    assert!(!tile_has_fluid_surface(TileType::IceSheet));
    assert!(!tile_has_fluid_surface(TileType::White));
    assert!(!tile_has_fluid_surface(TileType::SaltFlat));
    assert!(!tile_has_fluid_surface(TileType::ScorchedRock));
}

#[test]
fn rivers_are_not_fluid_surface_tiles() {
    assert!(!tile_has_fluid_surface(TileType::River));
    assert!(tile_has_fluid_surface(TileType::OceanRidge));
    assert!(tile_has_fluid_surface(TileType::ContinentalShelf));
}

#[test]
fn legend_colours_match_the_table() {
    assert_eq!(TileType::Sea.rgb(), [0, 191, 255]);
    assert_eq!(TileType::Mangrove.rgb(), [38, 18, 32]);
    assert_eq!(TileType::ScorchedRock.rgb(), [58, 52, 48]);
    assert_eq!(TileType::Desert.color(), [255, 210, 90, 255]);
}

#[test]
fn opaque_colour_extends_rgb_for_every_tile() {
    for t in [TileType::Sea, TileType::Taiga, TileType::Oasis, TileType::Glacier, TileType::Erg] {
        let [r, g, b] = t.rgb();
        assert_eq!(t.color(), [r, g, b, 255]);
    }
}

#[test]
fn default_tile_is_sea() {
    assert_eq!(TileType::default(), TileType::Sea);
}

#[test]
fn coordinates_keep_their_components() {
    let c = ChunkCoord::new(-3, 7);
    assert_eq!((c.x, c.y), (-3, 7));
    let t = TileCoord::new(5, -9);
    assert_eq!((t.x, t.y), (5, -9));
}

#[test]
fn detail_levels_rank_and_octaves() {
    assert_eq!(DetailLevel::Macro.as_u32(), 0);
    assert_eq!(DetailLevel::Meso.as_u32(), 1);
    assert_eq!(DetailLevel::Micro.as_u32(), 2);
    assert_eq!(DetailLevel::Macro.octave_offset(), 1);
    assert_eq!(DetailLevel::Micro.octave_offset(), 3);
    assert_eq!(DetailLevel::default(), DetailLevel::Macro);
}

#[test]
fn resources_have_biases_and_distinct_seeds() {
    assert_eq!(ResourceType::Iron.terrain_bias(), TerrainBias::Mountain);
    assert_eq!(ResourceType::Gems.terrain_bias(), TerrainBias::TectonicBoundary);
    assert_eq!(ResourceType::Fish.terrain_bias(), TerrainBias::Coastal);
    assert_eq!(ResourceType::WildGame.terrain_bias(), TerrainBias::MultipleBiomes);
    assert_eq!(ResourceType::Iron.seed_offset(), 100);
    assert_eq!(ResourceType::WildGame.seed_offset(), 111);
    let all = [
        ResourceType::Iron,
        ResourceType::Gold,
        ResourceType::Copper,
        ResourceType::Silver,
        ResourceType::Gems,
        ResourceType::Coal,
        ResourceType::Stone,
        ResourceType::Salt,
        ResourceType::Timber,
        ResourceType::Fish,
        ResourceType::FertileSoil,
        ResourceType::WildGame,
    ];
    for (i, a) in all.iter().enumerate() {
        for b in all.iter().skip(i + 1) {
            assert_ne!(a.seed_offset(), b.seed_offset());
        }
    }
}

#[test]
fn biome_groups() {
    assert!(is_frozen_biome(TileType::Taiga));
    assert!(!is_frozen_biome(TileType::Desert));
    assert!(is_volcanic_biome(TileType::LavaField));
    assert!(!is_volcanic_biome(TileType::ScorchedRock));
    assert!(render_biomes::is_water_biome(TileType::White));
    assert!(!render_biomes::is_water_biome(TileType::River));
    assert!(render_biomes::is_frozen_biome(TileType::Snow));
    assert!(!render_biomes::is_frozen_biome(TileType::Taiga));
    assert!(render_biomes::is_forest_biome(TileType::Jungle));
    assert!(render_biomes::is_grassland_biome(TileType::Steppe));
    assert!(render_biomes::is_wetland_biome(TileType::Mangrove));
    assert!(render_biomes::is_desert_biome(TileType::Hamada));
}
