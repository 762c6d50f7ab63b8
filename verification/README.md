# margins_grip

The verified core of the Margin's Grip terrain pipeline, written in Verus.

`src/` is the library. Every function in it carries a `requires`/`ensures`
contract that Verus proves:

- `biome`, `render_biomes`, `classes`, `coords`, `resource_type`: the tile
  catalogue with its colours and fluid surfaces, the renderer's biome groups,
  climate classes, chunk and tile coordinates, resource kinds.
- `wrap`, `flow`, `mesh_grid`: index arithmetic on the cylindrical world grid,
  D8 flow receivers, chunk-mesh edges and sub-mesh extents.
- `rivers`, `river_tree`: tracing river segments out of a flow field, linking
  them, and their Strahler orders, with laws that the links of a traced tree
  are consistent and acyclic and that the orders are unique and never fall
  downstream.
- `presentation`: the runtime presentation classes of a chunk, their tallies
  and dominant classes, the reduced class grids and their FNV digests.
- `perm_table`: the seeded noise permutation table, shuffled by `rand` and
  `rand_xorshift` behind one trusted wrapper.
- `visualization`, `artifacts`, `survey`, `text`: debug-layer names, artifact
  tags and manifests, survey sampling, RGBA tile blitting and downscaling,
  and the presentation-grid audit.

`tests/` runs the library on concrete values. `app/` is the command-line
program around it: argument parsing, the artifact store on disk, RON and
bincode files, and the floating-point scoring that picks each sample's
presentation classes before the library tallies them.
