use vstd::prelude::*;
use std::collections::HashMap;
use crate::altitude::{Altitudes, block_altitudes, read_altitudes};
use crate::block::{Block, Cell, StaticLocation, block_cells, copy_statics, statics_seq};

verus! {

broadcast use vstd::std_specs::hash::group_hash_axioms;

/// Number of distinct values of a block coordinate.
pub const COORD_RANGE: u64 = 0x1_0000_0000;

/// The state of one block coordinate in the store.
#[derive(Clone, Copy, Debug, PartialEq, Eq, Structural)]
pub enum BlockStatus {
    /// The coordinate lies outside the facet; it is never cached.
    OutOfRange,
    /// Nothing was decoded for the coordinate yet.
    NotLoaded,
    /// The block was decoded.
    Loaded,
    /// Decoding the block failed; the failure is cached like a block.
    LoadFailed,
}

/// Why a block cannot be read.
#[derive(Clone, Copy, Debug, PartialEq, Eq, Structural)]
pub enum BlockError {
    /// The coordinate lies outside the facet.
    OutOfRange,
    /// The block, or a neighbour that its altitudes need, was not decoded yet.
    NotLoaded,
    /// Decoding the block failed.
    LoadFailed,
}

/// The cells, statics and corner altitudes of a block that was read.
pub type BlockData = (Seq<Cell>, Seq<StaticLocation>, Seq<Altitudes>);

/// A decoded block and its statics; `block` is `None` where decoding the block failed.
#[derive(Debug)]
pub struct BlockEntry {
    pub block: Option<Block>,
    pub statics: Vec<StaticLocation>,
}

impl View for BlockEntry {
    type V = (Option<Seq<Cell>>, Seq<StaticLocation>);

    open spec fn view(&self) -> (Option<Seq<Cell>>, Seq<StaticLocation>) {
        (
            match self.block {
                Some(b) => Some(b@),
                None => None,
            },
            self.statics@,
        )
    }
}

/// The key under which the block at `(x, y)` is cached.
pub open spec fn block_key(x: int, y: int) -> u64 {
    (x * COORD_RANGE + y) as u64
}

fn key_of(x: u32, y: u32) -> (r: u64)
    ensures
        r == block_key(x as int, y as int),
{
    assert(x as u64 * COORD_RANGE <= 0xffff_ffff_0000_0000) by (nonlinear_arith)
        requires
            x <= 0xffff_ffff,
    ;
    x as u64 * COORD_RANGE + y as u64
}

proof fn lemma_key_injective(x1: int, y1: int, x2: int, y2: int)
    requires
        0 <= x1 < COORD_RANGE,
        0 <= y1 < COORD_RANGE,
        0 <= x2 < COORD_RANGE,
        0 <= y2 < COORD_RANGE,
        block_key(x1, y1) == block_key(x2, y2),
    ensures
        x1 == x2,
        y1 == y2,
{
    assert(0 <= x1 * COORD_RANGE + y1 < 0x1_0000_0000_0000_0000) by (nonlinear_arith)
        requires
            0 <= x1 < COORD_RANGE,
            0 <= y1 < COORD_RANGE,
    ;
    assert(0 <= x2 * COORD_RANGE + y2 < 0x1_0000_0000_0000_0000) by (nonlinear_arith)
        requires
            0 <= x2 < COORD_RANGE,
            0 <= y2 < COORD_RANGE,
    ;
    assert(x1 * COORD_RANGE + y1 == x2 * COORD_RANGE + y2);
    assert(x1 == x2 && y1 == y2) by (nonlinear_arith)
        requires
            x1 * COORD_RANGE + y1 == x2 * COORD_RANGE + y2,
            0 <= y1 < COORD_RANGE,
            0 <= y2 < COORD_RANGE,
            0 <= x1,
            0 <= x2,
    ;
}

/// The block store of one facet: decoded blocks with their statics, and the corner
/// altitudes derived from them, cached by block coordinate for the life of the store.
pub struct FacetCache {
    width_blocks: u32,
    height_blocks: u32,
    blocks: HashMap<u64, BlockEntry>,
    heights: HashMap<u64, Vec<Altitudes>>,
}

impl FacetCache {
    /// Width of the facet in blocks.
    pub closed spec fn width(&self) -> int {
        self.width_blocks as int
    }

    /// Height of the facet in blocks.
    pub closed spec fn height(&self) -> int {
        self.height_blocks as int
    }

    pub open spec fn in_range(&self, x: int, y: int) -> bool {
        0 <= x < self.width() && 0 <= y < self.height()
    }

    /// What was decoded for `(x, y)`, if anything.
    pub closed spec fn entry(&self, x: int, y: int) -> Option<(Option<Seq<Cell>>, Seq<StaticLocation>)> {
        if self.in_range(x, y) && self.blocks@.contains_key(block_key(x, y)) {
            Some(self.blocks@[block_key(x, y)]@)
        } else {
            None
        }
    }

    /// The corner altitudes cached for `(x, y)`, if any.
    pub closed spec fn cached_altitudes(&self, x: int, y: int) -> Option<Seq<Altitudes>> {
        if self.in_range(x, y) && self.heights@.contains_key(block_key(x, y)) {
            Some(self.heights@[block_key(x, y)]@)
        } else {
            None
        }
    }

    pub open spec fn status_of(&self, x: int, y: int) -> BlockStatus {
        if !self.in_range(x, y) {
            BlockStatus::OutOfRange
        } else {
            match self.entry(x, y) {
                None => BlockStatus::NotLoaded,
                Some(e) => if e.0 is Some {
                    BlockStatus::Loaded
                } else {
                    BlockStatus::LoadFailed
                },
            }
        }
    }

    /// The cells of the block at `(x, y)` where it lies in the facet and was decoded.
    pub open spec fn cells_at(&self, x: int, y: int) -> Option<Seq<Cell>> {
        match self.entry(x, y) {
            Some(e) => e.0,
            None => None,
        }
    }

    /// Every neighbour that the altitudes of `(x, y)` borrow from is either outside the
    /// facet or was decoded.
    pub open spec fn neighbours_resolved(&self, x: int, y: int) -> bool {
        &&& self.status_of(x + 1, y) != BlockStatus::NotLoaded
        &&& self.status_of(x, y + 1) != BlockStatus::NotLoaded
        &&& self.status_of(x + 1, y + 1) != BlockStatus::NotLoaded
    }

    /// The corner altitudes of the block at `(x, y)`, from it and its decoded neighbours.
    pub open spec fn altitudes_at(&self, x: int, y: int) -> Seq<Altitudes> {
        block_altitudes(
            self.cells_at(x, y)->Some_0,
            self.cells_at(x + 1, y),
            self.cells_at(x, y + 1),
            self.cells_at(x + 1, y + 1),
        )
    }

    /// The outcome of reading the block at `(x, y)`: the entry and its altitudes, or why not.
    pub open spec fn block_read(&self, x: int, y: int) -> Result<BlockData, BlockError> {
        match self.status_of(x, y) {
            BlockStatus::OutOfRange => Err(BlockError::OutOfRange),
            BlockStatus::NotLoaded => Err(BlockError::NotLoaded),
            BlockStatus::LoadFailed => Err(BlockError::LoadFailed),
            BlockStatus::Loaded => if self.neighbours_resolved(x, y) {
                Ok(
                    (
                        self.cells_at(x, y)->Some_0,
                        self.entry(x, y)->Some_0.1,
                        self.altitudes_at(x, y),
                    ),
                )
            } else {
                Err(BlockError::NotLoaded)
            },
        }
    }

    /// `(x, y)` as a one-element list if it is in the facet and not decoded yet.
    pub open spec fn pending_at(&self, x: int, y: int) -> Seq<(u32, u32)> {
        if self.status_of(x, y) == BlockStatus::NotLoaded {
            seq![(x as u32, y as u32)]
        } else {
            Seq::empty()
        }
    }

    /// The coordinates that reading `(x, y)` still needs decoded: the block, then its east,
    /// south and south-east neighbours.
    pub open spec fn pending_for(&self, x: int, y: int) -> Seq<(u32, u32)> {
        self.pending_at(x, y) + self.pending_at(x + 1, y) + self.pending_at(x, y + 1)
            + self.pending_at(x + 1, y + 1)
    }

    /// The entry recorded for a decode of `(x, y)`: the block where it has 64 cells
    /// (otherwise a failure), and the statics where they decoded (otherwise none).
    pub open spec fn decoded_entry(
        block: Option<Seq<Cell>>,
        statics: Option<Seq<StaticLocation>>,
    ) -> (Option<Seq<Cell>>, Seq<StaticLocation>) {
        (
            match block {
                Some(c) => if c.len() == 64 {
                    Some(c)
                } else {
                    None
                },
                None => None,
            },
            match statics {
                Some(s) => s,
                None => Seq::empty(),
            },
        )
    }

    /// The store's own invariant.
    pub closed spec fn wf(&self) -> bool {
        &&& forall|k: u64| #[trigger]
            self.blocks@.contains_key(k) ==> (self.blocks@[k].block matches Some(b) ==> b.wf())
        &&& forall|x: int, y: int| #[trigger]
            self.cached_altitudes(x, y) is Some ==> {
                &&& self.status_of(x, y) == BlockStatus::Loaded
                &&& self.neighbours_resolved(x, y)
                &&& self.cached_altitudes(x, y)->Some_0 == self.altitudes_at(x, y)
            }
    }

    /// An empty store for a facet of the given size in blocks.
    pub fn new(width_blocks: u32, height_blocks: u32) -> (r: FacetCache)
        ensures
            r.wf(),
            r.width() == width_blocks,
            r.height() == height_blocks,
            forall|x: int, y: int| #[trigger] r.entry(x, y) is None,
            forall|x: int, y: int| #[trigger] r.cached_altitudes(x, y) is None,
    {
        FacetCache {
            width_blocks,
            height_blocks,
            blocks: HashMap::new(),
            heights: HashMap::new(),
        }
    }

    pub fn width_blocks(&self) -> (r: u32)
        ensures
            r == self.width(),
    {
        self.width_blocks
    }

    pub fn height_blocks(&self) -> (r: u32)
        ensures
            r == self.height(),
    {
        self.height_blocks
    }

    proof fn lemma_blocks_frame(old_c: &FacetCache, new_c: &FacetCache, x: int, y: int)
        requires
            old_c.width() == new_c.width(),
            old_c.height() == new_c.height(),
            old_c.in_range(x, y),
            new_c.blocks@ == old_c.blocks@.insert(block_key(x, y), new_c.blocks@[block_key(x, y)]),
        ensures
            forall|a: int, b: int|
                !(a == x && b == y) ==> #[trigger] new_c.entry(a, b) == old_c.entry(a, b),
    {
        assert forall|a: int, b: int| !(a == x && b == y) implies #[trigger] new_c.entry(a, b)
            == old_c.entry(a, b) by {
            if old_c.in_range(a, b) {
                if block_key(a, b) == block_key(x, y) {
                    lemma_key_injective(a, b, x, y);
                }
            }
        }
    }

    proof fn lemma_heights_frame(old_c: &FacetCache, new_c: &FacetCache, x: int, y: int)
        requires
            old_c.width() == new_c.width(),
            old_c.height() == new_c.height(),
            old_c.in_range(x, y),
            new_c.heights@ == old_c.heights@.insert(
                block_key(x, y),
                new_c.heights@[block_key(x, y)],
            ),
        ensures
            forall|a: int, b: int|
                !(a == x && b == y) ==> #[trigger] new_c.cached_altitudes(a, b)
                    == old_c.cached_altitudes(a, b),
    {
        assert forall|a: int, b: int| !(a == x && b == y) implies #[trigger] new_c.cached_altitudes(
            a,
            b,
        ) == old_c.cached_altitudes(a, b) by {
            if old_c.in_range(a, b) {
                if block_key(a, b) == block_key(x, y) {
                    lemma_key_injective(a, b, x, y);
                }
            }
        }
    }

    fn status_wide(&self, x: u64, y: u64) -> (r: BlockStatus)
        ensures
            r == self.status_of(x as int, y as int),
    {
        if x >= self.width_blocks as u64 || y >= self.height_blocks as u64 {
            BlockStatus::OutOfRange
        } else {
            self.status(x as u32, y as u32)
        }
    }

    fn block_ref(&self, x: u64, y: u64) -> (r: Option<&Block>)
        requires
            self.wf(),
        ensures
            crate::block::cells_of(r) == self.cells_at(x as int, y as int),
            r matches Some(b) ==> b.wf(),
    {
        if x >= self.width_blocks as u64 || y >= self.height_blocks as u64 {
            return None;
        }
        let k = key_of(x as u32, y as u32);
        match self.blocks.get(&k) {
            None => None,
            Some(e) => {
                assert(self.blocks@.contains_key(k));
                e.block.as_ref()
            },
        }
    }

    fn push_pending(&self, out: &mut Vec<(u32, u32)>, x: u64, y: u64)
        ensures
            final(out)@ == old(out)@ + self.pending_at(x as int, y as int),
    {
        if self.status_wide(x, y) == BlockStatus::NotLoaded {
            out.push((x as u32, y as u32));
        }
        assert(final(out)@ =~= old(out)@ + self.pending_at(x as int, y as int));
    }

    /// The coordinates that have to be decoded and stored before the block at `(x, y)`
    /// can be read: the block itself and its east, south and south-east neighbours, each
    /// where it lies in the facet and was not decoded yet.
    pub fn pending(&self, x: u32, y: u32) -> (r: Vec<(u32, u32)>)
        ensures
            r@ == self.pending_for(x as int, y as int),
    {
        let mut out: Vec<(u32, u32)> = Vec::new();
        let wx = x as u64;
        let wy = y as u64;
        self.push_pending(&mut out, wx, wy);
        self.push_pending(&mut out, wx + 1, wy);
        self.push_pending(&mut out, wx, wy + 1);
        self.push_pending(&mut out, wx + 1, wy + 1);
        assert(out@ =~= self.pending_for(x as int, y as int));
        out
    }

    /// Records what decoding `(x, y)` gave. A block without 64 cells counts as a failed
    /// decode, and statics that failed to decode as none. Coordinates outside the facet,
    /// and those already recorded, are left as they are.
    pub fn store(
        &mut self,
        x: u32,
        y: u32,
        block: Option<Block>,
        statics: Option<Vec<StaticLocation>>,
    )
        requires
            old(self).wf(),
        ensures
            final(self).wf(),
            final(self).width() == old(self).width(),
            final(self).height() == old(self).height(),
            forall|a: int, b: int| #[trigger]
                final(self).entry(a, b) == if a == x && b == y && old(self).status_of(a, b)
                    == BlockStatus::NotLoaded {
                    Some(
                        FacetCache::decoded_entry(block_cells(block), statics_seq(statics)),
                    )
                } else {
                    old(self).entry(a, b)
                },
            forall|a: int, b: int| #[trigger]
                final(self).cached_altitudes(a, b) == old(self).cached_altitudes(a, b),
    {
        if self.status(x, y) != BlockStatus::NotLoaded {
            return;
        }
        let ghost old_c = *self;
        let k = key_of(x, y);
        let kept = match block {
            Some(b) => if b.cells.len() == 64 {
                Some(b)
            } else {
                None
            },
            None => None,
        };
        let list = match statics {
            Some(v) => v,
            None => Vec::new(),
        };
        let entry = BlockEntry { block: kept, statics: list };
        self.blocks.insert(k, entry);
        proof {
            FacetCache::lemma_blocks_frame(&old_c, self, x as int, y as int);
            assert(self.heights@ == old_c.heights@);
            assert forall|a: int, b: int| #[trigger]
                self.cached_altitudes(a, b) is Some implies {
                &&& self.status_of(a, b) == BlockStatus::Loaded
                &&& self.neighbours_resolved(a, b)
                &&& self.cached_altitudes(a, b)->Some_0 == self.altitudes_at(a, b)
            } by {
                assert(self.cached_altitudes(a, b) == old_c.cached_altitudes(a, b));
                assert(old_c.status_of(a, b) == BlockStatus::Loaded);
                assert(old_c.neighbours_resolved(a, b));
                assert(self.entry(a, b) == old_c.entry(a, b));
                assert(self.entry(a + 1, b) == old_c.entry(a + 1, b));
                assert(self.entry(a, b + 1) == old_c.entry(a, b + 1));
                assert(self.entry(a + 1, b + 1) == old_c.entry(a + 1, b + 1));
            }
        }
    }

    /// The decoded entry of `(x, y)`, if it lies in the facet and was decoded.
    pub fn get_block(&self, x: u32, y: u32) -> (r: Option<&BlockEntry>)
        ensures
            r matches Some(e) ==> self.entry(x as int, y as int) == Some(e@),
            r is None ==> self.entry(x as int, y as int) is None,
    {
        if x >= self.width_blocks || y >= self.height_blocks {
            return None;
        }
        self.blocks.get(&key_of(x, y))
    }

    /// Reads the block at `(x, y)` with its statics and the corner altitudes of its cells,
    /// deriving and caching the altitudes on first use. Fails where the coordinate lies
    /// outside the facet, where its decode failed, and where it or a neighbour inside the
    /// facet was not decoded yet (`pending` lists those).
    pub fn read_block(&mut self, x: u32, y: u32) -> (r: Result<
        ((Block, Vec<StaticLocation>), Vec<Altitudes>),
        BlockError,
    >)
        requires
            old(self).wf(),
        ensures
            final(self).wf(),
            final(self).width() == old(self).width(),
            final(self).height() == old(self).height(),
            forall|a: int, b: int| #[trigger] final(self).entry(a, b) == old(self).entry(a, b),
            forall|a: int, b: int|
                !(a == x && b == y) ==> #[trigger] final(self).cached_altitudes(a, b)
                    == old(self).cached_altitudes(a, b),
            match r {
                Ok(((b, s), alts)) => {
                    &&& b.wf()
                    &&& old(self).block_read(x as int, y as int) == Ok::<BlockData, BlockError>((b@, s@, alts@))
                    &&& final(self).cached_altitudes(x as int, y as int) == Some(alts@)
                },
                Err(e) => {
                    &&& old(self).block_read(x as int, y as int) == Err::<BlockData, BlockError>(e)
                    &&& final(self).cached_altitudes(x as int, y as int) == old(
                        self,
                    ).cached_altitudes(x as int, y as int)
                },
            },
    {
        match self.status(x, y) {
            BlockStatus::OutOfRange => return Err(BlockError::OutOfRange),
            BlockStatus::NotLoaded => return Err(BlockError::NotLoaded),
            BlockStatus::LoadFailed => return Err(BlockError::LoadFailed),
            BlockStatus::Loaded => {},
        }
        let wx = x as u64;
        let wy = y as u64;
        if self.status_wide(wx + 1, wy) == BlockStatus::NotLoaded || self.status_wide(wx, wy + 1)
            == BlockStatus::NotLoaded || self.status_wide(wx + 1, wy + 1)
            == BlockStatus::NotLoaded {
            return Err(BlockError::NotLoaded);
        }
        let ghost old_c = *self;
        let k = key_of(x, y);
        if !self.heights.contains_key(&k) {
            let alts = {
                let own = self.block_ref(wx, wy);
                let east = self.block_ref(wx + 1, wy);
                let south = self.block_ref(wx, wy + 1);
                let southeast = self.block_ref(wx + 1, wy + 1);
                read_altitudes(own.unwrap(), east, south, southeast)
            };
            self.heights.insert(k, alts);
            proof {
                FacetCache::lemma_heights_frame(&old_c, self, x as int, y as int);
                assert(self.blocks@ == old_c.blocks@);
                assert forall|a: int, b: int| #[trigger]
                    self.cached_altitudes(a, b) is Some implies {
                    &&& self.status_of(a, b) == BlockStatus::Loaded
                    &&& self.neighbours_resolved(a, b)
                    &&& self.cached_altitudes(a, b)->Some_0 == self.altitudes_at(a, b)
                } by {
                    assert(self.entry(a, b) == old_c.entry(a, b));
                    assert(self.entry(a + 1, b) == old_c.entry(a + 1, b));
                    assert(self.entry(a, b + 1) == old_c.entry(a, b + 1));
                    assert(self.entry(a + 1, b + 1) == old_c.entry(a + 1, b + 1));
                    if !(a == x && b == y) {
                        assert(self.cached_altitudes(a, b) == old_c.cached_altitudes(a, b));
                    }
                }
            }
        }
        assert(self.cached_altitudes(x as int, y as int) is Some);
        let e = self.blocks.get(&k).unwrap();
        let blk = e.block.as_ref().unwrap().copy();
        let statics = copy_statics(&e.statics);
        let alts = copy_altitudes(self.heights.get(&k).unwrap());
        Ok(((blk, statics), alts))
    }

    /// The state of the coordinate `(x, y)`.
    pub fn status(&self, x: u32, y: u32) -> (r: BlockStatus)
        ensures
            r == self.status_of(x as int, y as int),
    {
        if x >= self.width_blocks || y >= self.height_blocks {
            return BlockStatus::OutOfRange;
        }
        match self.blocks.get(&key_of(x, y)) {
            None => BlockStatus::NotLoaded,
            Some(e) => if e.block.is_some() {
                BlockStatus::Loaded
            } else {
                BlockStatus::LoadFailed
            },
        }
    }
}

/// Reading a block twice gives the same outcome: a read leaves the size and every entry of
/// the store as they were, and the outcome depends on those alone. Once a read succeeded,
/// nothing is pending for the block, so a second read asks for no decode.
pub proof fn lemma_read_block_idempotent(first: &FacetCache, second: &FacetCache, x: int, y: int)
    requires
        second.width() == first.width(),
        second.height() == first.height(),
        forall|a: int, b: int| #[trigger] second.entry(a, b) == first.entry(a, b),
    ensures
        second.block_read(x, y) == first.block_read(x, y),
        second.pending_for(x, y) == first.pending_for(x, y),
        first.block_read(x, y) is Ok ==> first.pending_for(x, y).len() == 0,
{
    assert(second.entry(x, y) == first.entry(x, y));
    assert(second.entry(x + 1, y) == first.entry(x + 1, y));
    assert(second.entry(x, y + 1) == first.entry(x, y + 1));
    assert(second.entry(x + 1, y + 1) == first.entry(x + 1, y + 1));
}

/// A decoded block at the facet's south-east corner reads without error, with the corners
/// past its edges standing at each cell's own height.
pub proof fn lemma_corner_block_reads(c: &FacetCache)
    requires
        c.status_of(c.width() - 1, c.height() - 1) == BlockStatus::Loaded,
    ensures
        c.block_read(c.width() - 1, c.height() - 1) == Ok::<BlockData, BlockError>(
            (
                c.cells_at(c.width() - 1, c.height() - 1)->Some_0,
                c.entry(c.width() - 1, c.height() - 1)->Some_0.1,
                block_altitudes(c.cells_at(c.width() - 1, c.height() - 1)->Some_0, None, None, None),
            ),
        ),
{
}

fn copy_altitudes(v: &Vec<Altitudes>) -> (r: Vec<Altitudes>)
    ensures
        r@ == v@,
{
    let mut out: Vec<Altitudes> = Vec::new();
    let mut i: usize = 0;
    while i < v.len()
        invariant
            i <= v@.len(),
            out@ == v@.subrange(0, i as int),
        decreases v@.len() - i,
    {
        out.push(v[i]);
        i = i + 1;
        assert(out@ =~= v@.subrange(0, i as int));
    }
    assert(out@ =~= v@);
    out
}

} // verus!
