//! Places in a world.
use vstd::prelude::*;

use crate::table::Key;

verus! {

/// The place of a block.
#[derive(Clone, Copy, Debug, PartialEq, Eq, Structural)]
pub struct BlockPos {
    pub x: i32,
    pub y: i32,
    pub z: i32,
}

impl View for BlockPos {
    type V = BlockPos;

    open spec fn view(&self) -> BlockPos {
        *self
    }
}

impl Key for BlockPos {
    fn is(&self, other: &Self) -> (r: bool) {
        self.x == other.x && self.y == other.y && self.z == other.z
    }
}

/// The chunk a coordinate lies in, sixteen blocks to each, the ones below zero counted down.
pub fn chunk_of(block: i32) -> (r: i32)
    ensures
        r == block as int / 16,
{
    let wide: i64 = block as i64;
    if wide >= 0 {
        (wide as u64 / 16) as i32
    } else {
        let below: u64 = (15 - wide) as u64;
        -((below / 16) as i32)
    }
}

} // verus!
