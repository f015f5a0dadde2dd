use vstd::prelude::*;
use vstd::arithmetic::div_mod::{lemma_fundamental_div_mod, lemma_fundamental_div_mod_converse};
use crate::block::{Cell, StaticLocation, copy_statics};
use crate::facet_cache::{BlockEntry, BlockStatus, FacetCache};

verus! {

/// What a lens holds for block `(cx, cy)` of the facet: the store's entry, or nothing
/// where the coordinate lies outside the facet.
pub open spec fn lens_entry(store: &FacetCache, cx: int, cy: int) -> (
    Option<Seq<Cell>>,
    Seq<StaticLocation>,
) {
    match store.entry(cx, cy) {
        Some(e) => e,
        None => (None, Seq::empty()),
    }
}

/// A window of `width` by `height` blocks with its top-left block at `(x, y)`, holding
/// the entries row by row.
#[derive(Debug)]
pub struct MapLens {
    pub blocks: Vec<BlockEntry>,
    pub x: u32,
    pub y: u32,
    pub width: u32,
    pub height: u32,
}

/// A window of `width` by `height` blocks at `(x, y)` has coordinates and a size that
/// the machine's integers hold.
pub open spec fn window_fits(x: int, y: int, width: int, height: int) -> bool {
    &&& x + width <= 0x1_0000_0000
    &&& y + height <= 0x1_0000_0000
    &&& width * height <= usize::MAX
}

proof fn lemma_position(i: int, w: int, h: int, xx: int, yy: int)
    requires
        w > 0,
        0 <= xx < w,
        0 <= yy,
        i == yy * w + xx,
        i < w * h,
    ensures
        i % w == xx,
        i / w == yy,
        yy < h,
{
    lemma_fundamental_div_mod_converse(i, w, yy, xx);
    if yy >= h {
        assert(yy * w >= w * h) by (nonlinear_arith)
            requires
                yy >= h,
                w > 0,
        ;
    }
}

proof fn lemma_index_below(ox: int, oy: int, w: int, h: int)
    requires
        0 <= ox < w,
        0 <= oy < h,
    ensures
        0 <= oy * w + ox < w * h,
{
    assert(0 <= oy * w + ox < w * h) by (nonlinear_arith)
        requires
            0 <= ox < w,
            0 <= oy < h,
    ;
}

fn copy_entry(e: &BlockEntry) -> (r: BlockEntry)
    ensures
        r@ == e@,
{
    let block = match &e.block {
        Some(b) => Some(b.copy()),
        None => None,
    };
    BlockEntry { block, statics: copy_statics(&e.statics) }
}

/// The store's entry for `(cx, cy)` as a lens entry, unless it lies in the facet and was
/// not decoded yet.
fn fetch(store: &FacetCache, cx: u32, cy: u32) -> (r: Option<BlockEntry>)
    ensures
        r is None <==> store.status_of(cx as int, cy as int) == BlockStatus::NotLoaded,
        r matches Some(e) ==> e@ == lens_entry(store, cx as int, cy as int),
{
    if store.status(cx, cy) == BlockStatus::NotLoaded {
        return None;
    }
    match store.get_block(cx, cy) {
        Some(e) => Some(copy_entry(e)),
        None => {
            let r = BlockEntry { block: None, statics: Vec::new() };
            assert(r@ =~= lens_entry(store, cx as int, cy as int));
            Some(r)
        },
    }
}

/// Every block of the window of `width` by `height` blocks at `(x, y)` lies outside the
/// facet or was decoded.
pub open spec fn window_ready(store: &FacetCache, x: int, y: int, width: int, height: int) -> bool {
    forall|i: int|
        0 <= i < width * height ==> #[trigger] store.status_of(x + i % width, y + i / width)
            != BlockStatus::NotLoaded
}

impl MapLens {
    /// Builds the window of `width` by `height` blocks at `(x, y)` from the store. Gives
    /// `None` where one of its blocks lies in the facet and was not decoded yet.
    pub fn new(store: &FacetCache, x: u32, y: u32, width: u32, height: u32) -> (r: Option<
        MapLens,
    >)
        requires
            window_fits(x as int, y as int, width as int, height as int),
        ensures
            r is Some <==> window_ready(store, x as int, y as int, width as int, height as int),
            r matches Some(l) ==> {
                &&& l.wf()
                &&& l.x == x
                &&& l.y == y
                &&& l.width == width
                &&& l.height == height
                &&& forall|i: int|
                    0 <= i < l.blocks@.len() ==> #[trigger] l.blocks@[i]@ == lens_entry(
                        store,
                        x + i % (width as int),
                        y + i / (width as int),
                    )
            },
    {
        let total = width as usize * height as usize;
        let mut out: Vec<BlockEntry> = Vec::new();
        let mut i: usize = 0;
        let mut xx: u32 = 0;
        let mut yy: u32 = 0;
        while i < total
            invariant
                window_fits(x as int, y as int, width as int, height as int),
                total == width * height,
                i <= total,
                width > 0 ==> xx < width,
                i == yy * width + xx,
                out@.len() == i,
                forall|j: int|
                    0 <= j < i ==> #[trigger] out@[j]@ == lens_entry(
                        store,
                        x + j % (width as int),
                        y + j / (width as int),
                    ),
                forall|j: int|
                    0 <= j < i ==> #[trigger] store.status_of(
                        x + j % (width as int),
                        y + j / (width as int),
                    ) != BlockStatus::NotLoaded,
            decreases total - i,
        {
            proof {
                lemma_position(i as int, width as int, height as int, xx as int, yy as int);
            }
            let e = match fetch(store, x + xx, y + yy) {
                Some(e) => e,
                None => {
                    assert(!window_ready(store, x as int, y as int, width as int, height as int))
                        by {
                        assert(store.status_of(
                            x + (i as int) % (width as int),
                            y + (i as int) / (width as int),
                        ) == BlockStatus::NotLoaded);
                    }
                    return None;
                },
            };
            let ghost prev = out@;
            out.push(e);
            assert forall|j: int| 0 <= j < i + 1 implies #[trigger] out@[j]@ == lens_entry(
                store,
                x + j % (width as int),
                y + j / (width as int),
            ) by {
                if j < i {
                    assert(out@[j] == prev[j]);
                }
            }
            i = i + 1;
            xx = xx + 1;
            if xx == width {
                xx = 0;
                yy = yy + 1;
                assert(i == yy * width + xx) by (nonlinear_arith)
                    requires
                        i == (yy - 1) * width + width,
                        xx == 0,
                ;
            }
        }
        Some(MapLens { blocks: out, x, y, width, height })
    }

    /// The lens holds one entry per position of its window.
    pub open spec fn wf(&self) -> bool {
        &&& self.blocks@.len() == self.width * self.height
        &&& window_fits(self.x as int, self.y as int, self.width as int, self.height as int)
    }

    /// The facet coordinate of position `i` of a window at `(x, y)` of this lens's width.
    pub open spec fn coord(&self, x: int, y: int, i: int) -> (int, int) {
        (x + i % (self.width as int), y + i / (self.width as int))
    }

    /// For position `i` of the window moved to `(x, y)`, the position of this lens that
    /// shows the same block, if the old window holds it.
    pub open spec fn reused_from(&self, x: int, y: int, i: int) -> Option<int> {
        let w = self.width as int;
        let ox = i % w + x - self.x;
        let oy = i / w + y - self.y;
        if 0 <= ox < w && 0 <= oy < self.height {
            Some(oy * w + ox)
        } else {
            None
        }
    }

    /// The facet coordinates of the positions among the first `n` of the window moved to
    /// `(x, y)` that the old window does not hold, row by row.
    pub open spec fn exposed_upto(&self, x: int, y: int, n: int) -> Seq<(u32, u32)>
        decreases n,
    {
        if n <= 0 {
            Seq::empty()
        } else {
            self.exposed_upto(x, y, n - 1) + if self.reused_from(x, y, n - 1) is None {
                seq![
                    (
                        self.coord(x, y, n - 1).0 as u32,
                        self.coord(x, y, n - 1).1 as u32,
                    ),
                ]
            } else {
                Seq::empty()
            }
        }
    }

    /// What position `i` of the window moved to `(x, y)` holds: the old entry where the
    /// old window holds the block, the store's entry otherwise.
    pub open spec fn moved_entry(&self, store: &FacetCache, x: int, y: int, i: int) -> (
        Option<Seq<Cell>>,
        Seq<StaticLocation>,
    ) {
        match self.reused_from(x, y, i) {
            Some(j) => self.blocks@[j]@,
            None => lens_entry(store, self.coord(x, y, i).0, self.coord(x, y, i).1),
        }
    }

    /// Every block that the window moved to `(x, y)` does not reuse lies outside the facet
    /// or was decoded.
    pub open spec fn move_ready(&self, store: &FacetCache, x: int, y: int) -> bool {
        forall|i: int|
            0 <= i < self.width * self.height && #[trigger] self.reused_from(x, y, i) is None
                ==> store.status_of(self.coord(x, y, i).0, self.coord(x, y, i).1)
                != BlockStatus::NotLoaded
    }

    /// Moving the window one block east keeps every position but those of the last
    /// column: each is taken from its east neighbour in the old window, while the last
    /// column is exposed.
    pub proof fn lemma_step_east_reuse(&self, i: int)
        requires
            self.wf(),
            self.width > 0,
            0 <= i < self.width * self.height,
        ensures
            i % (self.width as int) < self.width - 1 ==> self.reused_from(
                self.x + 1,
                self.y as int,
                i,
            ) == Some(i + 1),
            i % (self.width as int) == self.width - 1 ==> self.reused_from(
                self.x + 1,
                self.y as int,
                i,
            ) is None,
    {
        let w = self.width as int;
        lemma_fundamental_div_mod(i, w);
        lemma_position(i, w, self.height as int, i % w, i / w);
        assert(w * (i / w) == (i / w) * w) by (nonlinear_arith);
    }

    proof fn lemma_step_east_exposed_prefix(&self, n: int)
        requires
            self.wf(),
            self.width > 0,
            0 <= n <= self.width * self.height,
        ensures
            self.exposed_upto(self.x + 1, self.y as int, n).len() == n / (self.width as int),
        decreases n,
    {
        let w = self.width as int;
        if n > 0 {
            self.lemma_step_east_exposed_prefix(n - 1);
            self.lemma_step_east_reuse(n - 1);
            let q = (n - 1) / w;
            let r = (n - 1) % w;
            lemma_fundamental_div_mod(n - 1, w);
            assert(n - 1 == q * w + r) by (nonlinear_arith)
                requires
                    n - 1 == w * q + r,
            ;
            if r < w - 1 {
                lemma_fundamental_div_mod_converse(n, w, q, r + 1);
            } else {
                assert(n == (q + 1) * w + 0) by (nonlinear_arith)
                    requires
                        n - 1 == q * w + r,
                        r == w - 1,
                ;
                lemma_fundamental_div_mod_converse(n, w, q + 1, 0);
            }
        } else {
            assert(0int / w == 0);
        }
    }

    /// Moving the window one block east exposes exactly one block per row: the new last
    /// column; every other position is reused.
    pub proof fn lemma_step_east_exposes_one_column(&self)
        requires
            self.wf(),
            self.width > 0,
        ensures
            self.exposed_upto(self.x + 1, self.y as int, self.width * self.height).len()
                == self.height,
    {
        self.lemma_step_east_exposed_prefix(self.width * self.height);
        assert(self.width * self.height == (self.height as int) * (self.width as int) + 0)
            by (nonlinear_arith);
        lemma_fundamental_div_mod_converse(
            self.width * self.height,
            self.width as int,
            self.height as int,
            0,
        );
    }

    fn source_index(&self, x: u32, y: u32, xx: u32, yy: u32) -> (r: Option<usize>)
        requires
            self.wf(),
            xx < self.width,
            yy < self.height,
        ensures
            r matches Some(j) ==> self.reused_from(x as int, y as int, yy * self.width + xx)
                == Some(j as int),
            r is None ==> self.reused_from(x as int, y as int, yy * self.width + xx) is None,
            r matches Some(j) ==> j < self.blocks@.len(),
    {
        proof {
            lemma_index_below(xx as int, yy as int, self.width as int, self.height as int);
            lemma_position(
                yy * self.width + xx,
                self.width as int,
                self.height as int,
                xx as int,
                yy as int,
            );
        }
        let ox: i64 = xx as i64 + x as i64 - self.x as i64;
        let oy: i64 = yy as i64 + y as i64 - self.y as i64;
        if 0 <= ox && ox < self.width as i64 && 0 <= oy && oy < self.height as i64 {
            proof {
                lemma_index_below(ox as int, oy as int, self.width as int, self.height as int);
            }
            Some(oy as usize * self.width as usize + ox as usize)
        } else {
            None
        }
    }

    /// The coordinates of the blocks that moving the window to `(x, y)` exposes, row by
    /// row: those that the window needs and does not hold now.
    pub fn exposed(&self, x: u32, y: u32) -> (r: Vec<(u32, u32)>)
        requires
            self.wf(),
            window_fits(x as int, y as int, self.width as int, self.height as int),
        ensures
            r@ == self.exposed_upto(x as int, y as int, self.width * self.height),
    {
        let w = self.width;
        let total = w as usize * self.height as usize;
        let mut out: Vec<(u32, u32)> = Vec::new();
        let mut i: usize = 0;
        let mut xx: u32 = 0;
        let mut yy: u32 = 0;
        while i < total
            invariant
                self.wf(),
                window_fits(x as int, y as int, w as int, self.height as int),
                w == self.width,
                total == w * self.height,
                i <= total,
                w > 0 ==> xx < w,
                i == yy * w + xx,
                out@ == self.exposed_upto(x as int, y as int, i as int),
            decreases total - i,
        {
            proof {
                lemma_position(i as int, w as int, self.height as int, xx as int, yy as int);
            }
            if self.source_index(x, y, xx, yy).is_none() {
                out.push((x + xx, y + yy));
            }
            proof {
                assert(out@ =~= self.exposed_upto(x as int, y as int, i + 1));
            }
            i = i + 1;
            xx = xx + 1;
            if xx == w {
                xx = 0;
                yy = yy + 1;
                assert(i == yy * w + xx) by (nonlinear_arith)
                    requires
                        i == (yy - 1) * w + w,
                        xx == 0,
                ;
            }
        }
        out
    }

    /// Moves the window to `(x, y)`: entries that the new window shares with this one are
    /// copied from it, the others come from the store. Gives `None` where one of those
    /// lies in the facet and was not decoded yet (`exposed` lists the candidates).
    pub fn update(&self, store: &FacetCache, x: u32, y: u32) -> (r: Option<MapLens>)
        requires
            self.wf(),
            window_fits(x as int, y as int, self.width as int, self.height as int),
        ensures
            r is Some <==> self.move_ready(store, x as int, y as int),
            r matches Some(l) ==> {
                &&& l.wf()
                &&& l.x == x
                &&& l.y == y
                &&& l.width == self.width
                &&& l.height == self.height
                &&& forall|i: int|
                    0 <= i < l.blocks@.len() ==> #[trigger] l.blocks@[i]@ == self.moved_entry(
                        store,
                        x as int,
                        y as int,
                        i,
                    )
            },
    {
        let w = self.width;
        let total = w as usize * self.height as usize;
        let mut out: Vec<BlockEntry> = Vec::new();
        let mut i: usize = 0;
        let mut xx: u32 = 0;
        let mut yy: u32 = 0;
        while i < total
            invariant
                self.wf(),
                window_fits(x as int, y as int, w as int, self.height as int),
                w == self.width,
                total == w * self.height,
                i <= total,
                w > 0 ==> xx < w,
                i == yy * w + xx,
                out@.len() == i,
                forall|j: int|
                    0 <= j < i ==> #[trigger] out@[j]@ == self.moved_entry(
                        store,
                        x as int,
                        y as int,
                        j,
                    ),
                forall|j: int|
                    0 <= j < i && #[trigger] self.reused_from(x as int, y as int, j) is None
                        ==> store.status_of(
                        self.coord(x as int, y as int, j).0,
                        self.coord(x as int, y as int, j).1,
                    ) != BlockStatus::NotLoaded,
            decreases total - i,
        {
            proof {
                lemma_position(i as int, w as int, self.height as int, xx as int, yy as int);
            }
            let e = match self.source_index(x, y, xx, yy) {
                Some(j) => {
                    let e = copy_entry(&self.blocks[j]);
                    assert(self.reused_from(x as int, y as int, i as int) == Some(j as int));
                    e
                },
                None => match fetch(store, x + xx, y + yy) {
                    Some(e) => {
                        assert(self.reused_from(x as int, y as int, i as int) is None);
                        assert(self.coord(x as int, y as int, i as int) == ((x + xx) as int, (y
                            + yy) as int));
                        e
                    },
                    None => {
                        assert(!self.move_ready(store, x as int, y as int)) by {
                            assert(self.reused_from(x as int, y as int, i as int) is None);
                        }
                        return None;
                    },
                },
            };
            assert(e@ == self.moved_entry(store, x as int, y as int, i as int));
            let ghost prev = out@;
            out.push(e);
            assert forall|j: int| 0 <= j < i + 1 implies #[trigger] out@[j]@ == self.moved_entry(
                store,
                x as int,
                y as int,
                j,
            ) by {
                if j < i {
                    assert(out@[j] == prev[j]);
                }
            }
            i = i + 1;
            xx = xx + 1;
            if xx == w {
                xx = 0;
                yy = yy + 1;
                assert(i == yy * w + xx) by (nonlinear_arith)
                    requires
                        i == (yy - 1) * w + w,
                        xx == 0,
                ;
            }
        }
        Some(MapLens { blocks: out, x, y, width: self.width, height: self.height })
    }
}

} // verus!
