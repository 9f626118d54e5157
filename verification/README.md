# Capsule Wanderer

A small Bevy 3D sandbox: a capsule walks a checkered World, picks up and drops
objects on a Placement Grid, and assembles Crafted Objects from Voxel Cubes on a
Workbench. The rules of the game are a library verified with Verus; the Bevy program
around it reads input, casts rays and renders.

## Layout

- `src/` — the verified library (`capsule_wanderer`):
  - `grid.rs`: Placement Cells, footprint overlap, drop validity and stacking (the
    height at which a dropped object comes to rest).
  - `voxel.rs`: Builder Cells, the Builder Volume and `VoxelSet`, a set of cells.
  - `connectivity.rs`: face connectivity of cubes to the Workbench floor; the
    breadth-first check that a removal keeps every cube connected.
  - `crafting.rs`: bounds, footprint and height of a Crafted Object.
  - `creation.rs`: Creation Mode as a state machine, with its invariant (cubes stay
    inside the Builder Volume and connected to the floor), click targets and the
    builder visual cache.
  - `drag.rs`: picking up, previewing and dropping Placeable Objects.
  - `controls.rs`: camera orbit steps and movement intent.
- `tests/` — tests of the library.
- `app/` — the Bevy program: setup, systems, and the floating-point geometry
  (rays, boxes, world positions).
