//! The cover that hides the terrain which the player has not seen yet.

use vstd::prelude::*;

use crate::rule::TilePos;

verus! {

/// Whether the cover hides the cell `pos` when the world starts. The cover
/// leaves open a window at the top of the minable area, `vision_radius`
/// rows deep and centred on the middle column, where the player stands.
pub open spec fn covered_at_start(
    pos: TilePos,
    width: u32,
    height: u32,
    building_height: u32,
    vision_radius: u32,
) -> bool {
    ||| pos.y < height - building_height - vision_radius
    ||| pos.x <= width / 2 - vision_radius
    ||| pos.x >= width / 2 + vision_radius
}

/// Decides whether the cover hides the cell `pos` when the world starts.
pub fn is_covered_at_start(
    pos: &TilePos,
    width: u32,
    height: u32,
    building_height: u32,
    vision_radius: u32,
) -> (covered: bool)
    ensures
        covered == covered_at_start(*pos, width, height, building_height, vision_radius),
{
    let x: u64 = pos.x as u64;
    let y: u64 = pos.y as u64;
    let radius: u64 = vision_radius as u64;
    let middle: u64 = (width / 2) as u64;
    y + radius + (building_height as u64) < height as u64 || x + radius <= middle || x >= middle
        + radius
}

} // verus!
