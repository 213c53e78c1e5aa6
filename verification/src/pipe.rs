use vstd::prelude::*;

verus! {

/// One obstacle: a vertical pair of pipes with a passable gap whose top edge
/// sits at `hole_y`. Once created it only ever scrolls left; the gap never
/// moves.
#[derive(Clone, Copy, PartialEq, Eq, Structural, Debug)]
pub struct Pipe {
    /// Identifier unique among simultaneously live obstacles, handed out by
    /// the track's counter; used to avoid scoring one obstacle twice.
    pub id: u32,
    /// Horizontal position of the obstacle's left edge.
    pub x_offset: i32,
    /// Top edge of the passable gap.
    pub hole_y: i32,
}

impl Pipe {
    pub fn new(id: u32, x_offset: i32, hole_y: i32) -> (p: Pipe)
        ensures
            p == (Pipe { id, x_offset, hole_y }),
    {
        Pipe { id, x_offset, hole_y }
    }
}

} // verus!
