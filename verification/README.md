# fidget_shell

Native shell and loft kernels, the register machine that evaluates them, and the
voxel renderers that sample the machine, written in Verus.

- `src/scalar.rs`, `src/alu.rs`, `src/rounding.rs`: binary32 numbers by their bit
  patterns, rounding arithmetic supplied by the caller, and what bounds ask of it.
- `src/shell/`: topologies of lofts and hulls, their signed distances, their
  bounds over tiles, and the proof that those bounds are conservative.
- `src/vm/`: tapes, and their evaluation over points, ranges, slices and
  gradients.
- `src/raster/`: tile sizes, the search in the tree of tiles, two renderers, the
  leaf-debug renderer, and the proof that an image shows what sampling every voxel
  would show.
- `src/mesh/`: accumulated samples of a cell and finite-difference normals.
- `src/ship/`: the built-in ship as native shells and as an expression.
- `app/`: machine arithmetic, pixel buffers, process-wide counters, worker threads,
  timing and printed statistics.

Every contract is stated for whichever arithmetic was supplied. Where a law needs
more than that, such as that differences keep order, its `requires` says so.
