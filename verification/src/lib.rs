//! A small scene engine for visualising pointers and memory blocks.
//!
//! The scene lives in a 3D coordinate space and is drawn through a fixed
//! isometric projection onto a 2D surface. All geometry is held in
//! fixed-point integers: a scene unit is `MILLI_PER_UNIT` milli-units, and
//! the draw commands that `render` produces use sub-units of half a
//! milli-unit, so that the projection `x - z/2` is exact for every input.

use vstd::prelude::*;

pub mod bench;
pub mod render;
pub mod scene;
pub mod trig;

verus! {

/// Isometric projection of a coordinate pair onto the drawing plane, in
/// sub-units: `x - z/2` scene units, written without rounding as `2x - z`.
pub open spec fn iso_of(x: int, z: int) -> int {
    2 * x - z
}

/// Number of milli-units in one scene unit. Coordinates, extents and line
/// thicknesses handed to the engine are measured in milli-units.
pub const MILLI_PER_UNIT: i64 = 1000;

/// Number of sub-units in one scene unit. Draw-command geometry is measured
/// in sub-units (half milli-units), which keeps the isometric projection
/// exact even for odd `z` values.
pub const SUB_PER_UNIT: i64 = 2000;

/// Isometric projection of a 3D point onto the drawing plane:
/// `(x - z/2, y - z/2)` in scene units. The inputs are milli-units and the
/// result is in sub-units, so the halving is exact: `2*x - z`.
pub fn project(x: i32, y: i32, z: i32) -> (r: (i64, i64))
    ensures
        r.0 == iso_of(x as int, z as int),
        r.1 == iso_of(y as int, z as int),
{
    ((x as i64) * 2 - (z as i64), (y as i64) * 2 - (z as i64))
}

} // verus!

