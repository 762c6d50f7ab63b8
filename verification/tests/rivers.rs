use margins_grip::biome::fluid_surface_mask;
use margins_grip::river_tree::{build_river_tree, compute_flow_accumulation};
use margins_grip::TileType;
use margins_grip::mesh_grid::{cell_has_fluid_surface, clamp_index, collect_edge_indices, submesh_extent, EdgeKind};
use margins_grip::rivers::{compute_strahler_orders, upstream_drainage_for, upstream_links, RiverLink};
use margins_grip::wrap::wrap_cell_ix;

fn network(downstream: &[Option<usize>], drainage: &[u32]) -> Vec<RiverLink> {
    let ds: Vec<Option<usize>> = downstream.to_vec();
    let ups = upstream_links(&ds);
    ds.iter()
        .zip(ups)
        .zip(drainage)
        .map(|((d, u), a)| RiverLink { downstream: *d, upstream: u, drainage_area: *a })
        .collect()
}

#[test]
fn upstream_links_invert_downstream_links_in_index_order() {
    let ds = vec![Some(2), Some(2), None, Some(9), Some(2)];
    let ups = upstream_links(&ds);
    assert_eq!(ups, vec![vec![], vec![], vec![0, 1, 4], vec![], vec![]]);
    assert!(upstream_links(&Vec::new()).is_empty());
}

#[test]
fn strahler_orders_of_a_small_basin() {
    // 0 and 1 are headwaters joining at 2; 2 and headwater 4 join at 3.
    let links = network(&[Some(2), Some(2), Some(3), None, Some(3)], &[5, 7, 20, 40, 3]);
    assert_eq!(compute_strahler_orders(&links), vec![1, 1, 2, 2, 1]);
}

#[test]
fn two_equal_orders_raise_the_order() {
    // Two order-2 streams (2 and 5) join at 6.
    let links = network(
        &[Some(2), Some(2), Some(6), Some(5), Some(5), Some(6), None],
        &[1, 1, 2, 1, 1, 2, 4],
    );
    assert_eq!(compute_strahler_orders(&links), vec![1, 1, 2, 1, 1, 2, 3]);
}

#[test]
fn strahler_orders_of_isolated_segments_and_empty_networks() {
    assert!(compute_strahler_orders(&Vec::new()).is_empty());
    let links = network(&[None, None, Some(7)], &[1, 1, 1]);
    assert_eq!(compute_strahler_orders(&links), vec![1, 1, 1]);
}

#[test]
fn upstream_drainage_is_the_largest_tributary() {
    let links = network(&[Some(2), Some(2), Some(3), None, Some(3)], &[5, 7, 20, 40, 3]);
    assert_eq!(upstream_drainage_for(&links, 2), 7);
    assert_eq!(upstream_drainage_for(&links, 3), 20);
    assert_eq!(upstream_drainage_for(&links, 0), 0);
    assert_eq!(upstream_drainage_for(&links, 99), 0);
}

#[test]
fn upstream_drainage_skips_unknown_tributaries() {
    let links = vec![
        RiverLink { downstream: None, upstream: vec![5, 1], drainage_area: 9 },
        RiverLink { downstream: Some(0), upstream: vec![], drainage_area: 4 },
    ];
    assert_eq!(upstream_drainage_for(&links, 0), 4);
}

#[test]
fn edge_indices_of_a_three_by_two_grid() {
    assert_eq!(collect_edge_indices(3, 2, EdgeKind::West), vec![0, 3]);
    assert_eq!(collect_edge_indices(3, 2, EdgeKind::East), vec![2, 5]);
    assert_eq!(collect_edge_indices(3, 2, EdgeKind::North), vec![0, 1, 2]);
    assert_eq!(collect_edge_indices(3, 2, EdgeKind::South), vec![3, 4, 5]);
    assert!(collect_edge_indices(0, 0, EdgeKind::West).is_empty());
}

#[test]
fn fluid_quads_need_four_wet_corners() {
    let mask = [1u8, 1, 0, 1, 1, 1];
    assert!(cell_has_fluid_surface(&mask, 3, 0, 0));
    assert!(!cell_has_fluid_surface(&mask, 3, 1, 0));
}

#[test]
fn clamp_index_keeps_neighbours_in_the_grid() {
    assert_eq!(clamp_index(-1, 5), 0);
    assert_eq!(clamp_index(3, 5), 3);
    assert_eq!(clamp_index(7, 5), 4);
    assert_eq!(clamp_index(2, 0), 0);
}

#[test]
fn submesh_extents_stop_one_cell_short_of_the_edge() {
    assert_eq!(submesh_extent(0, 16, 64), Some(15));
    assert_eq!(submesh_extent(48, 16, 64), Some(62));
    assert_eq!(submesh_extent(62, 16, 64), Some(62));
    assert_eq!(submesh_extent(63, 16, 64), None);
    assert_eq!(submesh_extent(0, 16, 1), Some(0));
}

#[test]
fn plate_cells_wrap_around_the_period() {
    assert_eq!(wrap_cell_ix(-1, 10), 9);
    assert_eq!(wrap_cell_ix(25, 10), 5);
    assert_eq!(wrap_cell_ix(-20, 10), 0);
    assert_eq!(wrap_cell_ix(-7, 0), -7);
    assert_eq!(wrap_cell_ix(12, -3), 12);
}


// A 3 by 4 grid: two headwaters (cells 0 and 2) run south and meet at the
// confluence 7, which drains into the sink 10.
const BASIN_FLOW: [u8; 12] = [4, 255, 4, 3, 255, 5, 255, 4, 255, 255, 255, 255];
const BASIN_ACC: [u32; 12] = [1, 0, 1, 2, 0, 2, 0, 5, 0, 0, 6, 0];

#[test]
fn river_tree_of_a_confluence() {
    let sea = [false; 12];
    let tree = build_river_tree(&BASIN_FLOW, &BASIN_ACC, &sea, 3, 4, 1);
    assert_eq!(tree.paths, vec![vec![0, 3], vec![2, 5], vec![7, 10]]);
    let downstream: Vec<Option<usize>> = tree.links.iter().map(|l| l.downstream).collect();
    assert_eq!(downstream, vec![Some(2), Some(2), None]);
    let upstream: Vec<Vec<usize>> = tree.links.iter().map(|l| l.upstream.clone()).collect();
    assert_eq!(upstream, vec![vec![], vec![], vec![0, 1]]);
    let drainage: Vec<u32> = tree.links.iter().map(|l| l.drainage_area).collect();
    assert_eq!(drainage, vec![2, 2, 6]);
    assert_eq!(compute_strahler_orders(&tree.links), vec![1, 1, 2]);
    assert_eq!(upstream_drainage_for(&tree.links, 2), 2);
}

#[test]
fn river_tree_stops_at_the_sea() {
    let mut sea = [false; 12];
    sea[7] = true;
    let tree = build_river_tree(&BASIN_FLOW, &BASIN_ACC, &sea, 3, 4, 1);
    assert_eq!(tree.paths, vec![vec![0, 3], vec![2, 5]]);
    assert!(tree.links.iter().all(|l| l.downstream.is_none() && l.upstream.is_empty()));
}

#[test]
fn river_tree_without_rivers_or_cells_is_empty() {
    let sea = [false; 12];
    let tree = build_river_tree(&BASIN_FLOW, &BASIN_ACC, &sea, 3, 4, 100);
    assert!(tree.paths.is_empty() && tree.links.is_empty());
    let tree = build_river_tree(&[], &[], &[], 0, 0, 1);
    assert!(tree.paths.is_empty() && tree.links.is_empty());
}

#[test]
fn river_tree_wraps_east_west() {
    // 3 by 2 grid: cell 2 flows east and wraps to cell 0, which flows south.
    let flow = [4u8, 255, 2, 255, 255, 255];
    let acc = [2u32, 0, 1, 3, 0, 0];
    let sea = [false; 6];
    let tree = build_river_tree(&flow, &acc, &sea, 3, 2, 1);
    assert_eq!(tree.paths, vec![vec![2, 0, 3]]);
    assert_eq!(tree.links[0].drainage_area, 3);
}

#[test]
fn fluid_surface_mask_marks_water_tiles() {
    let tiles = vec![TileType::Sea, TileType::Plains, TileType::DeepOcean, TileType::Tundra];
    assert_eq!(fluid_surface_mask(&tiles), vec![1, 0, 1, 0]);
}

#[test]
fn frozen_and_marine_chunks_get_uniform_fluid_masks() {
    let ice = vec![TileType::IceSheet; 9];
    assert!(fluid_surface_mask(&ice).iter().all(|&v| v == 0));
    let sea = vec![TileType::Sea; 9];
    assert!(fluid_surface_mask(&sea).iter().all(|&v| v == 1));
    let sea_mask = fluid_surface_mask(&sea);
    assert!(cell_has_fluid_surface(&sea_mask, 3, 1, 1));
    let ice_mask = fluid_surface_mask(&ice);
    assert!(!cell_has_fluid_surface(&ice_mask, 3, 0, 0));
}

#[test]
fn strahler_orders_never_fall_downstream() {
    let ds = [Some(2), Some(2), Some(6), Some(5), Some(5), Some(6), None, Some(6)];
    let links = network(&ds, &[1, 1, 2, 1, 1, 2, 4, 1]);
    let orders = compute_strahler_orders(&links);
    assert_eq!(orders, vec![1, 1, 2, 1, 1, 2, 3, 1]);
    for (u, d) in ds.iter().enumerate() {
        if let Some(d) = d {
            assert!(orders[u] <= orders[*d]);
        }
        assert!(orders[u] >= 1);
    }
}

#[test]
fn flow_accumulation_passes_counts_downstream_in_order() {
    let flow = [2u8, 2, 255];
    assert_eq!(compute_flow_accumulation(&flow, &[0, 1, 2], 3, 1), vec![1, 2, 3]);
    assert_eq!(compute_flow_accumulation(&flow, &[1, 0, 2], 3, 1), vec![1, 2, 2]);
    assert_eq!(compute_flow_accumulation(&flow, &[], 3, 1), vec![1, 1, 1]);
    let wrapping = [255u8, 255, 2];
    assert_eq!(compute_flow_accumulation(&wrapping, &[2], 3, 1), vec![2, 1, 1]);
    // Flow off the bottom edge is lost.
    let down = [4u8, 4, 4];
    assert_eq!(compute_flow_accumulation(&down, &[0, 1, 2], 3, 1), vec![1, 1, 1]);
}
