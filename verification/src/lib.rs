//! The rules of Capsule Wanderer: placement on the World's grid, Creation Mode on the
//! Workbench, dragging objects, and the camera orbit and movement controls.
use vstd::prelude::*;

pub mod voxel;
pub mod connectivity;
pub mod grid;
pub mod crafting;
pub mod creation;
pub mod drag;
pub mod controls;

verus! {

} // verus!
