use vstd::prelude::*;
use crate::block::{Block, Cell, cells_of};

verus! {

/// The four corner heights of one terrain cell: its own (north-west) height and the
/// heights of its east, south and south-east neighbours.
#[derive(Clone, Copy, Debug, PartialEq, Eq, Structural)]
pub struct Altitudes {
    pub x1y1: i8,
    pub x2y1: i8,
    pub x1y2: i8,
    pub x2y2: i8,
}

impl Altitudes {
    /// All four corners stand at the same height.
    pub open spec fn is_flat(self) -> bool {
        self.x1y1 == self.x2y1 && self.x1y1 == self.x1y2 && self.x1y1 == self.x2y2
    }
}

/// The altitude of cell `i` of a block.
pub open spec fn height_at(cells: Seq<Cell>, i: int) -> i8 {
    cells[i].altitude
}

/// The corner heights of the cell at `(x, y)` of block `own`, borrowing the heights past
/// the block's east and south edges from its neighbours; a missing neighbour stands in
/// at the cell's own height.
pub open spec fn corner_altitudes(
    own: Seq<Cell>,
    east: Option<Seq<Cell>>,
    south: Option<Seq<Cell>>,
    southeast: Option<Seq<Cell>>,
    x: int,
    y: int,
) -> Altitudes {
    let h = height_at(own, y * 8 + x);
    Altitudes {
        x1y1: h,
        x2y1: if x < 7 {
            height_at(own, y * 8 + x + 1)
        } else {
            match east {
                Some(e) => height_at(e, y * 8),
                None => h,
            }
        },
        x1y2: if y < 7 {
            height_at(own, (y + 1) * 8 + x)
        } else {
            match south {
                Some(s) => height_at(s, x),
                None => h,
            }
        },
        x2y2: if x == 7 && y == 7 {
            match southeast {
                Some(d) => height_at(d, 0),
                None => h,
            }
        } else if x == 7 {
            match east {
                Some(e) => height_at(e, (y + 1) * 8),
                None => h,
            }
        } else if y == 7 {
            match south {
                Some(s) => height_at(s, x + 1),
                None => h,
            }
        } else {
            height_at(own, (y + 1) * 8 + x + 1)
        },
    }
}

/// The corner heights of all 64 cells of a block, row by row.
pub open spec fn block_altitudes(
    own: Seq<Cell>,
    east: Option<Seq<Cell>>,
    south: Option<Seq<Cell>>,
    southeast: Option<Seq<Cell>>,
) -> Seq<Altitudes> {
    Seq::new(64, |i: int| corner_altitudes(own, east, south, southeast, i % 8, i / 8))
}

/// A block and its neighbours, where present, each hold 64 cells.
pub open spec fn neighbours_wf(
    own: &Block,
    east: Option<&Block>,
    south: Option<&Block>,
    southeast: Option<&Block>,
) -> bool {
    &&& own.wf()
    &&& (east matches Some(b) ==> b.wf())
    &&& (south matches Some(b) ==> b.wf())
    &&& (southeast matches Some(b) ==> b.wf())
}

/// Where block `b` lies east of block `a`, the east corner heights of `a`'s last column
/// are the own heights of `b`'s first column in the same row, and, above the last row,
/// the south-east corners of `a`'s last column are the south corners of `b`'s first.
pub proof fn lemma_east_edge_agrees(
    a: Seq<Cell>,
    b: Seq<Cell>,
    a_south: Option<Seq<Cell>>,
    a_southeast: Option<Seq<Cell>>,
    b_east: Option<Seq<Cell>>,
    b_south: Option<Seq<Cell>>,
    b_southeast: Option<Seq<Cell>>,
    row: int,
)
    requires
        a.len() == 64,
        b.len() == 64,
        0 <= row < 8,
    ensures
        block_altitudes(a, Some(b), a_south, a_southeast)[row * 8 + 7].x2y1 == block_altitudes(
            b,
            b_east,
            b_south,
            b_southeast,
        )[row * 8].x1y1,
        row < 7 ==> block_altitudes(a, Some(b), a_south, a_southeast)[row * 8 + 7].x2y2
            == block_altitudes(b, b_east, b_south, b_southeast)[row * 8].x1y2,
{
    assert((row * 8 + 7) % 8 == 7 && (row * 8 + 7) / 8 == row);
    assert((row * 8) % 8 == 0 && (row * 8) / 8 == row);
}

/// At the facet's edge, where a block has no east, south or south-east neighbour, the
/// corners past the block's edge stand at the cell's own height.
pub proof fn lemma_edge_fallback(own: Seq<Cell>, i: int)
    requires
        own.len() == 64,
        0 <= i < 64,
    ensures
        ({
            let a = block_altitudes(own, None, None, None)[i];
            &&& i % 8 == 7 ==> a.x2y1 == a.x1y1
            &&& i / 8 == 7 ==> a.x1y2 == a.x1y1
            &&& (i % 8 == 7 || i / 8 == 7) ==> a.x2y2 == a.x1y1
        }),
{
}

fn height_or(b: Option<&Block>, i: usize, fallback: i8) -> (r: i8)
    requires
        b matches Some(blk) ==> i < blk@.len(),
    ensures
        r == match cells_of(b) {
            Some(c) => height_at(c, i as int),
            None => fallback,
        },
{
    match b {
        Some(blk) => blk.cells[i].altitude,
        None => fallback,
    }
}

/// Derives the corner heights of every cell of `own` from the block and its east, south
/// and south-east neighbours.
pub fn read_altitudes(
    own: &Block,
    east: Option<&Block>,
    south: Option<&Block>,
    southeast: Option<&Block>,
) -> (r: Vec<Altitudes>)
    requires
        neighbours_wf(own, east, south, southeast),
    ensures
        r@ == block_altitudes(own@, cells_of(east), cells_of(south), cells_of(southeast)),
{
    let ghost spec_all = block_altitudes(own@, cells_of(east), cells_of(south), cells_of(southeast));
    let mut out: Vec<Altitudes> = Vec::new();
    let mut i: usize = 0;
    while i < 64
        invariant
            i <= 64,
            neighbours_wf(own, east, south, southeast),
            spec_all == block_altitudes(own@, cells_of(east), cells_of(south), cells_of(southeast)),
            out@ == spec_all.subrange(0, i as int),
        decreases 64 - i,
    {
        let x: usize = i % 8;
        let y: usize = i / 8;
        assert(y * 8 + x == i);
        let h = own.cells[i].altitude;
        let x2y1 = if x < 7 {
            own.cells[i + 1].altitude
        } else {
            height_or(east, y * 8, h)
        };
        let x1y2 = if y < 7 {
            own.cells[i + 8].altitude
        } else {
            height_or(south, x, h)
        };
        let x2y2 = if x == 7 && y == 7 {
            height_or(southeast, 0, h)
        } else if x == 7 {
            height_or(east, (y + 1) * 8, h)
        } else if y == 7 {
            height_or(south, x + 1, h)
        } else {
            own.cells[i + 9].altitude
        };
        out.push(Altitudes { x1y1: h, x2y1, x1y2, x2y2 });
        proof {
            assert(out@ =~= spec_all.subrange(0, i + 1));
        }
        i = i + 1;
    }
    assert(out@ =~= spec_all);
    out
}

} // verus!
