use vstd::prelude::*;
use crate::art::{ArtCache, TexMapCache};
use crate::compose::{block_drawables, draw_block};
use crate::facet_cache::{BlockData, BlockError, FacetCache};
use crate::render::{Drawable, Point, block_at, block_offset};
use crate::scene::{SceneChangeEvent, SceneName};

verus! {

/// Number of facets the viewer cycles through.
pub const FACET_COUNT: u8 = 5;

/// Blocks moved per key press, across.
pub const STEP_X: u32 = 1;

/// Blocks moved per key press, down.
pub const STEP_Y: u32 = 1;

/// Width of the shown page, in blocks.
pub const PAGE_WIDTH: u32 = 6;

/// Height of the shown page, in blocks.
pub const PAGE_HEIGHT: u32 = 6;

/// Largest origin coordinate of the page: the whole page stays addressable.
pub const MAX_ORIGIN: u32 = 0xffff_fff0;

/// The facet shown for map id `id`: ids past the last facet fall back to the first.
pub open spec fn facet_of(id: u8) -> int {
    if id < FACET_COUNT {
        id as int
    } else {
        0
    }
}

/// The facet shown for map id `id`.
pub fn facet_index(id: u8) -> (r: usize)
    ensures
        r == facet_of(id),
{
    if id < FACET_COUNT {
        id as usize
    } else {
        0
    }
}

/// A key pressed in the world view.
#[derive(Clone, Copy, Debug, PartialEq, Eq, Structural)]
pub enum WorldKey {
    Escape,
    Left,
    Right,
    Up,
    Down,
    Tab,
    Other,
}

/// Where the world view stands: the block at the page's top-left corner, the facet shown,
/// and whether the view was asked to close.
#[derive(Clone, Copy, Debug, PartialEq, Eq, Structural)]
pub struct WorldView {
    pub x: u32,
    pub y: u32,
    pub map_id: u8,
    pub exiting: bool,
}

/// The view after `key`.
pub open spec fn after_key(v: WorldView, key: WorldKey) -> WorldView {
    match key {
        WorldKey::Escape => WorldView { exiting: true, ..v },
        WorldKey::Left => if v.x >= STEP_X {
            WorldView { x: (v.x - STEP_X) as u32, ..v }
        } else {
            v
        },
        WorldKey::Right => if v.x + STEP_X <= MAX_ORIGIN {
            WorldView { x: (v.x + STEP_X) as u32, ..v }
        } else {
            v
        },
        WorldKey::Up => if v.y >= STEP_Y {
            WorldView { y: (v.y - STEP_Y) as u32, ..v }
        } else {
            v
        },
        WorldKey::Down => if v.y + STEP_Y <= MAX_ORIGIN {
            WorldView { y: (v.y + STEP_Y) as u32, ..v }
        } else {
            v
        },
        WorldKey::Tab => WorldView {
            map_id: ((v.map_id + 1) % (FACET_COUNT as int)) as u8,
            x: 0,
            y: 0,
            ..v
        },
        WorldKey::Other => v,
    }
}

/// The facet coordinate of block `i` of the page at `(x, y)`, row by row.
pub open spec fn page_coord(x: int, y: int, i: int) -> (int, int) {
    (x + i % (PAGE_WIDTH as int), y + i / (PAGE_WIDTH as int))
}

/// Where block `i` of the page goes on screen.
pub open spec fn page_offset(i: int) -> Point {
    Point {
        x: block_offset(i % (PAGE_WIDTH as int), i / (PAGE_WIDTH as int)).0 as i64,
        y: block_offset(i % (PAGE_WIDTH as int), i / (PAGE_WIDTH as int)).1 as i64,
    }
}

/// The draw list of the first `n` blocks of the page at `(x, y)`: each block that reads
/// from the store, drawn at its place; the others left out.
pub open spec fn page_drawables(
    store: &FacetCache,
    x: int,
    y: int,
    art: ArtCache,
    texmaps: TexMapCache,
    n: int,
) -> Seq<Drawable>
    decreases n,
{
    if n <= 0 {
        Seq::empty()
    } else {
        page_drawables(store, x, y, art, texmaps, n - 1) + match store.block_read(
            page_coord(x, y, n - 1).0,
            page_coord(x, y, n - 1).1,
        ) {
            Ok(d) => block_drawables(page_offset(n - 1), Some(d.0), d.1, d.2, art, texmaps, 64),
            Err(_) => Seq::empty(),
        }
    }
}

/// The coordinates that the first `n` blocks of the page at `(x, y)` still need decoded.
pub open spec fn page_pending_upto(store: &FacetCache, x: int, y: int, n: int) -> Seq<(u32, u32)>
    decreases n,
{
    if n <= 0 {
        Seq::empty()
    } else {
        page_pending_upto(store, x, y, n - 1) + store.pending_for(
            page_coord(x, y, n - 1).0,
            page_coord(x, y, n - 1).1,
        )
    }
}

impl WorldView {
    /// The origin leaves the whole page addressable and the map id names a facet.
    pub open spec fn wf(&self) -> bool {
        self.x <= MAX_ORIGIN && self.y <= MAX_ORIGIN && self.map_id < FACET_COUNT
    }

    /// The view first shown: the first facet, around its capital.
    pub fn new() -> (r: WorldView)
        ensures
            r.wf(),
            r == (WorldView { x: 160, y: 208, map_id: 0, exiting: false }),
    {
        WorldView { x: 160, y: 208, map_id: 0, exiting: false }
    }

    /// Pans, switches facet or asks to close. Tells whether the facet changed.
    pub fn key_down_event(&mut self, key: WorldKey) -> (r: bool)
        requires
            old(self).wf(),
        ensures
            final(self).wf(),
            *final(self) == after_key(*old(self), key),
            r == (key == WorldKey::Tab),
    {
        match key {
            WorldKey::Escape => {
                self.exiting = true;
            },
            WorldKey::Left => {
                if self.x >= STEP_X {
                    self.x = self.x - STEP_X;
                }
            },
            WorldKey::Right => {
                if self.x <= MAX_ORIGIN - STEP_X {
                    self.x = self.x + STEP_X;
                }
            },
            WorldKey::Up => {
                if self.y >= STEP_Y {
                    self.y = self.y - STEP_Y;
                }
            },
            WorldKey::Down => {
                if self.y <= MAX_ORIGIN - STEP_Y {
                    self.y = self.y + STEP_Y;
                }
            },
            WorldKey::Tab => {
                self.map_id = (self.map_id + 1) % FACET_COUNT;
                self.x = 0;
                self.y = 0;
            },
            WorldKey::Other => {},
        }
        key == WorldKey::Tab
    }

    /// Closes the view once it was asked to.
    pub fn update(&self) -> (r: Option<SceneChangeEvent<SceneName>>)
        ensures
            r == if self.exiting {
                Some(SceneChangeEvent::<SceneName>::PopScene)
            } else {
                None
            },
    {
        if self.exiting {
            Some(SceneChangeEvent::PopScene)
        } else {
            None
        }
    }

    /// The facet coordinates of the page's blocks, row by row.
    pub fn page_coords(&self) -> (r: Vec<(u32, u32)>)
        requires
            self.wf(),
        ensures
            r@.len() == PAGE_WIDTH * PAGE_HEIGHT,
            forall|i: int|
                0 <= i < r@.len() ==> #[trigger] r@[i] == (
                    page_coord(self.x as int, self.y as int, i).0 as u32,
                    page_coord(self.x as int, self.y as int, i).1 as u32,
                ),
    {
        let mut out: Vec<(u32, u32)> = Vec::new();
        let mut i: u32 = 0;
        while i < PAGE_WIDTH * PAGE_HEIGHT
            invariant
                self.wf(),
                i <= PAGE_WIDTH * PAGE_HEIGHT,
                out@.len() == i,
                forall|j: int|
                    0 <= j < i ==> #[trigger] out@[j] == (
                        page_coord(self.x as int, self.y as int, j).0 as u32,
                        page_coord(self.x as int, self.y as int, j).1 as u32,
                    ),
            decreases PAGE_WIDTH * PAGE_HEIGHT - i,
        {
            out.push((self.x + i % PAGE_WIDTH, self.y + i / PAGE_WIDTH));
            i = i + 1;
        }
        out
    }

    /// The coordinates that have to be decoded and stored before the whole page can be
    /// drawn, block by block.
    pub fn page_pending(&self, store: &FacetCache) -> (r: Vec<(u32, u32)>)
        requires
            self.wf(),
        ensures
            r@ == page_pending_upto(
                store,
                self.x as int,
                self.y as int,
                (PAGE_WIDTH * PAGE_HEIGHT) as int,
            ),
    {
        let mut out: Vec<(u32, u32)> = Vec::new();
        let mut i: u32 = 0;
        while i < PAGE_WIDTH * PAGE_HEIGHT
            invariant
                self.wf(),
                i <= PAGE_WIDTH * PAGE_HEIGHT,
                out@ == page_pending_upto(store, self.x as int, self.y as int, i as int),
            decreases PAGE_WIDTH * PAGE_HEIGHT - i,
        {
            let mut more = store.pending(self.x + i % PAGE_WIDTH, self.y + i / PAGE_WIDTH);
            out.append(&mut more);
            i = i + 1;
        }
        out
    }

    /// Composes the page: each of its blocks that reads from the store, drawn at its
    /// place, row by row. Blocks that cannot be read are left out.
    pub fn draw_page(&self, store: &mut FacetCache, art: &ArtCache, texmaps: &TexMapCache) -> (r:
        Vec<Drawable>)
        requires
            self.wf(),
            old(store).wf(),
        ensures
            final(store).wf(),
            final(store).width() == old(store).width(),
            final(store).height() == old(store).height(),
            forall|a: int, b: int| #[trigger] final(store).entry(a, b) == old(store).entry(a, b),
            r@ == page_drawables(
                old(store),
                self.x as int,
                self.y as int,
                *art,
                *texmaps,
                (PAGE_WIDTH * PAGE_HEIGHT) as int,
            ),
    {
        let ghost start = *store;
        let mut out: Vec<Drawable> = Vec::new();
        let mut i: u32 = 0;
        while i < PAGE_WIDTH * PAGE_HEIGHT
            invariant
                self.wf(),
                i <= PAGE_WIDTH * PAGE_HEIGHT,
                store.wf(),
                store.width() == start.width(),
                store.height() == start.height(),
                forall|a: int, b: int| #[trigger] store.entry(a, b) == start.entry(a, b),
                out@ == page_drawables(&start, self.x as int, self.y as int, *art, *texmaps, i as int),
            decreases PAGE_WIDTH * PAGE_HEIGHT - i,
        {
            let bx = i % PAGE_WIDTH;
            let by = i / PAGE_WIDTH;
            let ghost before = *store;
            assert(before.block_read(self.x + bx, self.y + by) == start.block_read(
                self.x + bx,
                self.y + by,
            ));
            match store.read_block(self.x + bx, self.y + by) {
                Ok(((b, s), a)) => {
                    let offset = block_at(bx as i64, by as i64);
                    assert(bx < 6 && by < 6);
                    assert(offset.in_range());
                    let mut drawn = draw_block(offset, Some(&b), &s, &a, art, texmaps);
                    out.append(&mut drawn);
                },
                Err(_) => {},
            }
            i = i + 1;
        }
        out
    }
}

} // verus!
