use vstd::prelude::*;

verus! {

/// Number of cells in a block.
pub const BLOCK_CELLS: usize = 64;

/// One terrain cell: its graphic and its elevation.
#[derive(Clone, Copy, Debug, PartialEq, Eq, Structural)]
pub struct Cell {
    pub graphic: u16,
    pub altitude: i8,
}

/// An 8x8 chunk of terrain cells, stored row by row (`local_y * 8 + local_x`).
#[derive(Debug)]
pub struct Block {
    pub cells: Vec<Cell>,
}

/// A static item placed in a block: its graphic, its cell within the block and its own altitude.
#[derive(Clone, Copy, Debug, PartialEq, Eq, Structural)]
pub struct StaticLocation {
    pub object_id: u16,
    pub x: u8,
    pub y: u8,
    pub altitude: i8,
}

impl View for Block {
    type V = Seq<Cell>;

    open spec fn view(&self) -> Seq<Cell> {
        self.cells@
    }
}

impl Block {
    /// A block holds exactly one cell per position.
    pub open spec fn wf(&self) -> bool {
        self.cells@.len() == BLOCK_CELLS
    }

    /// A copy of this block with the same cells.
    pub fn copy(&self) -> (r: Block)
        ensures
            r@ == self@,
    {
        let mut cells: Vec<Cell> = Vec::new();
        let mut i: usize = 0;
        while i < self.cells.len()
            invariant
                i <= self.cells@.len(),
                cells@ == self.cells@.subrange(0, i as int),
            decreases self.cells@.len() - i,
        {
            cells.push(self.cells[i]);
            i = i + 1;
            assert(cells@ =~= self.cells@.subrange(0, i as int));
        }
        assert(cells@ =~= self.cells@);
        Block { cells }
    }
}

/// The cells of an optional block, as a sequence.
pub open spec fn cells_of(b: Option<&Block>) -> Option<Seq<Cell>> {
    match b {
        Some(blk) => Some(blk@),
        None => None,
    }
}

/// The cells of an optional owned block, as a sequence.
pub open spec fn block_cells(b: Option<Block>) -> Option<Seq<Cell>> {
    match b {
        Some(blk) => Some(blk@),
        None => None,
    }
}

/// An optional list of statics, as a sequence.
pub open spec fn statics_seq(s: Option<Vec<StaticLocation>>) -> Option<Seq<StaticLocation>> {
    match s {
        Some(v) => Some(v@),
        None => None,
    }
}

/// A copy of a list of static placements.
pub fn copy_statics(statics: &Vec<StaticLocation>) -> (r: Vec<StaticLocation>)
    ensures
        r@ == statics@,
{
    let mut out: Vec<StaticLocation> = Vec::new();
    let mut i: usize = 0;
    while i < statics.len()
        invariant
            i <= statics@.len(),
            out@ == statics@.subrange(0, i as int),
        decreases statics@.len() - i,
    {
        out.push(statics[i]);
        i = i + 1;
        assert(out@ =~= statics@.subrange(0, i as int));
    }
    assert(out@ =~= statics@);
    out
}

} // verus!
