use vstd::prelude::*;
use crate::altitude::Altitudes;
use crate::art::{MapTileData, StaticTileData};

verus! {

/// Width and height in pixels of one diamond terrain tile.
pub const TILE_SIZE: i64 = 44;

/// Half the width of a diamond tile.
pub const TILE_HALF: i64 = 22;

/// Pixels of vertical displacement per unit of altitude.
pub const HEIGHT_STEP: i64 = 4;

/// Largest offset, in either axis, at which a block may be placed.
pub const MAX_OFFSET: i64 = 0x7fff_ffff;

/// A point in screen pixels.
#[derive(Clone, Copy, Debug, PartialEq, Eq, Structural)]
pub struct Point {
    pub x: i64,
    pub y: i64,
}

impl Point {
    /// Both coordinates lie within the range in which blocks are placed.
    pub open spec fn in_range(self) -> bool {
        -MAX_OFFSET <= self.x <= MAX_OFFSET && -MAX_OFFSET <= self.y <= MAX_OFFSET
    }
}

/// The four corners of a terrain tile relative to its anchor, clockwise from the top.
#[derive(Clone, Copy, Debug, PartialEq, Eq, Structural)]
pub struct Quad {
    pub top: Point,
    pub right: Point,
    pub bottom: Point,
    pub left: Point,
}

/// What one drawable shows.
#[allow(inconsistent_fields)]
#[derive(Clone, Copy, Debug, PartialEq, Eq, Structural)]
pub enum DrawableItem {
    /// The art of a static item.
    Static { object_id: u16, tiledata: StaticTileData },
    /// The flat art of a terrain tile.
    Tile { graphic: u16, tiledata: MapTileData },
    /// A terrain texture mapped onto a deformed quad.
    Skewable { texture_id: u16, quad: Quad, tiledata: MapTileData },
}

/// One entry of a draw list: what to draw, where its top-left corner goes on screen,
/// and the altitude by which it is ordered.
#[derive(Clone, Copy, Debug, PartialEq, Eq, Structural)]
pub struct Drawable {
    pub item: DrawableItem,
    pub anchor: Point,
    pub depth: i64,
}

impl Drawable {
    /// Among drawables at one altitude: terrain first, then background statics, then
    /// the other statics.
    pub open spec fn rank(self) -> int {
        match self.item {
            DrawableItem::Static { tiledata, .. } => if tiledata.spec_is_background() {
                1
            } else {
                2
            },
            _ => 0,
        }
    }

    /// The position of the drawable in painter's order: altitude first, rank second.
    pub open spec fn order_key(self) -> int {
        self.depth * 3 + self.rank()
    }

    fn rank_exec(&self) -> (r: i64)
        ensures
            r == self.rank(),
    {
        match self.item {
            DrawableItem::Static { tiledata, .. } => if tiledata.is_background() {
                1
            } else {
                2
            },
            _ => 0,
        }
    }
}

/// The screen offset of cell `(x, y)` relative to the anchor of its block.
pub open spec fn cell_offset(x: int, y: int) -> (int, int) {
    (TILE_HALF * 7 + TILE_HALF * x - TILE_HALF * y, TILE_HALF * y + TILE_HALF * x)
}

/// The screen offset of cell `(x, y)` relative to the anchor of its block.
pub fn cell_at(x: i64, y: i64) -> (r: Point)
    requires
        -1000 <= x <= 1000,
        -1000 <= y <= 1000,
    ensures
        r.x == cell_offset(x as int, y as int).0,
        r.y == cell_offset(x as int, y as int).1,
{
    Point { x: TILE_HALF * 7 + TILE_HALF * x - TILE_HALF * y, y: TILE_HALF * y + TILE_HALF * x }
}

/// The screen offset of the block at `(x, y)` of a page of blocks.
pub open spec fn block_offset(x: int, y: int) -> (int, int) {
    (
        TILE_HALF * 8 * x - TILE_HALF * 8 * y + TILE_HALF * 16,
        TILE_HALF * 8 * y + TILE_HALF * 8 * x - TILE_HALF * 24,
    )
}

/// The screen offset of the block at `(x, y)` of a page of blocks.
pub fn block_at(x: i64, y: i64) -> (r: Point)
    requires
        -0x100_0000 <= x <= 0x100_0000,
        -0x100_0000 <= y <= 0x100_0000,
    ensures
        r.x == block_offset(x as int, y as int).0,
        r.y == block_offset(x as int, y as int).1,
{
    let side: i64 = TILE_HALF * 8;
    assert(side == 176);
    assert(-0x1_0000_0000 <= side * x <= 0x1_0000_0000) by (nonlinear_arith)
        requires
            side == 176,
            -0x100_0000 <= x <= 0x100_0000,
    ;
    assert(-0x1_0000_0000 <= side * y <= 0x1_0000_0000) by (nonlinear_arith)
        requires
            side == 176,
            -0x100_0000 <= y <= 0x100_0000,
    ;
    Point { x: side * x - side * y + TILE_HALF * 16, y: side * y + side * x - TILE_HALF * 24 }
}

/// The corners of a tile whose right, bottom and left corners are lifted by their heights
/// above the tile's own (north-west) corner.
pub open spec fn skew_quad(a: Altitudes) -> Quad {
    Quad {
        top: Point { x: TILE_HALF as i64, y: 0 },
        right: Point {
            x: TILE_SIZE as i64,
            y: (TILE_HALF - HEIGHT_STEP * (a.x2y1 - a.x1y1)) as i64,
        },
        bottom: Point {
            x: TILE_HALF as i64,
            y: (TILE_SIZE - HEIGHT_STEP * (a.x2y2 - a.x1y1)) as i64,
        },
        left: Point { x: 0, y: (TILE_HALF - HEIGHT_STEP * (a.x1y2 - a.x1y1)) as i64 },
    }
}

/// The deformed quad on which a sloped tile's texture is drawn.
pub fn skew(altitudes: &Altitudes) -> (r: Quad)
    ensures
        r == skew_quad(*altitudes),
{
    let own = altitudes.x1y1 as i64;
    let top_right = altitudes.x2y1 as i64 - own;
    let bottom_right = altitudes.x2y2 as i64 - own;
    let bottom_left = altitudes.x1y2 as i64 - own;
    Quad {
        top: Point { x: TILE_HALF, y: 0 },
        right: Point { x: TILE_SIZE, y: TILE_HALF - HEIGHT_STEP * top_right },
        bottom: Point { x: TILE_HALF, y: TILE_SIZE - HEIGHT_STEP * bottom_right },
        left: Point { x: 0, y: TILE_HALF - HEIGHT_STEP * bottom_left },
    }
}

/// `d` inserted into `s` after every entry that does not come after it.
pub open spec fn insert_by_depth(s: Seq<Drawable>, d: Drawable) -> Seq<Drawable>
    decreases s.len(),
{
    if s.len() == 0 {
        seq![d]
    } else if d.order_key() < s[0].order_key() {
        seq![d] + s
    } else {
        seq![s[0]] + insert_by_depth(s.drop_first(), d)
    }
}

/// `s` in painter's order: a stable sort by altitude, then by rank.
pub open spec fn sort_by_depth(s: Seq<Drawable>) -> Seq<Drawable>
    decreases s.len(),
{
    if s.len() == 0 {
        s
    } else {
        insert_by_depth(sort_by_depth(s.drop_last()), s.last())
    }
}

/// The order keys of `s` never decrease.
pub open spec fn depth_sorted(s: Seq<Drawable>) -> bool {
    forall|i: int, j: int| 0 <= i < j < s.len() ==> s[i].order_key() <= s[j].order_key()
}

proof fn lemma_insert_at(s: Seq<Drawable>, d: Drawable, p: int)
    requires
        0 <= p <= s.len(),
        forall|j: int| 0 <= j < p ==> s[j].order_key() <= d.order_key(),
        p < s.len() ==> d.order_key() < s[p].order_key(),
    ensures
        insert_by_depth(s, d) == s.insert(p, d),
    decreases s.len(),
{
    if s.len() == 0 {
        assert(s.insert(p, d) =~= seq![d]);
    } else if p == 0 {
        assert(s.insert(p, d) =~= seq![d] + s);
    } else {
        let rest = s.drop_first();
        assert forall|j: int| 0 <= j < p - 1 implies rest[j].order_key() <= d.order_key() by {
            assert(rest[j] == s[j + 1]);
        }
        lemma_insert_at(rest, d, p - 1);
        assert(s.insert(p, d) =~= seq![s[0]] + rest.insert(p - 1, d));
    }
}

fn insert_sorted(v: &mut Vec<Drawable>, d: Drawable)
    ensures
        final(v)@ == insert_by_depth(old(v)@, d),
{
    let mut p: usize = 0;
    let d_rank = d.rank_exec();
    while p < v.len()
        invariant
            p <= v@.len(),
            d_rank == d.rank(),
            forall|j: int| 0 <= j < p ==> v@[j].order_key() <= d.order_key(),
        ensures
            p <= v@.len(),
            forall|j: int| 0 <= j < p ==> v@[j].order_key() <= d.order_key(),
            p < v@.len() ==> d.order_key() < v@[p as int].order_key(),
        decreases v@.len() - p,
    {
        let e = v[p];
        let e_rank = e.rank_exec();
        if d.depth < e.depth || (d.depth == e.depth && d_rank < e_rank) {
            break;
        }
        p = p + 1;
    }
    proof {
        lemma_insert_at(v@, d, p as int);
    }
    v.insert(p, d);
}

/// Which of the three variants a drawable is: 0 for a static, 1 for a flat tile, 2 for a
/// skewed mesh.
pub open spec fn variant_code(d: Drawable) -> int {
    match d.item {
        DrawableItem::Static { .. } => 0,
        DrawableItem::Tile { .. } => 1,
        DrawableItem::Skewable { .. } => 2,
    }
}

/// How many entries of `s` have variant code `f`.
pub open spec fn count_where(s: Seq<Drawable>, f: int) -> nat
    decreases s.len(),
{
    if s.len() == 0 {
        0
    } else {
        (if variant_code(s[0]) == f {
            1nat
        } else {
            0nat
        }) + count_where(s.drop_first(), f)
    }
}

pub proof fn lemma_count_append(a: Seq<Drawable>, b: Seq<Drawable>, f: int)
    ensures
        count_where(a + b, f) == count_where(a, f) + count_where(b, f),
    decreases a.len(),
{
    if a.len() == 0 {
        assert(a + b =~= b);
    } else {
        assert((a + b).drop_first() =~= a.drop_first() + b);
        lemma_count_append(a.drop_first(), b, f);
    }
}

proof fn lemma_count_insert(s: Seq<Drawable>, d: Drawable, f: int)
    ensures
        count_where(insert_by_depth(s, d), f) == count_where(s, f) + count_where(seq![d], f),
    decreases s.len(),
{
    assert(seq![d].drop_first() =~= Seq::<Drawable>::empty());
    assert(count_where(Seq::<Drawable>::empty(), f) == 0);
    assert(count_where(seq![d], f) == (if variant_code(d) == f {
        1nat
    } else {
        0nat
    }));
    if s.len() == 0 {
    } else if d.order_key() < s[0].order_key() {
        assert((seq![d] + s).drop_first() =~= s);
    } else {
        assert((seq![s[0]] + insert_by_depth(s.drop_first(), d)).drop_first() =~= insert_by_depth(
            s.drop_first(),
            d,
        ));
        lemma_count_insert(s.drop_first(), d, f);
    }
}

/// Sorting into painter's order keeps how many drawables of each variant there are.
pub proof fn lemma_count_sorted(s: Seq<Drawable>, f: int)
    ensures
        count_where(sort_by_depth(s), f) == count_where(s, f),
    decreases s.len(),
{
    if s.len() > 0 {
        lemma_count_sorted(s.drop_last(), f);
        lemma_count_insert(sort_by_depth(s.drop_last()), s.last(), f);
        assert(s =~= s.drop_last() + seq![s.last()]);
        lemma_count_append(s.drop_last(), seq![s.last()], f);
    }
}

proof fn lemma_insert_lower_bound(s: Seq<Drawable>, d: Drawable, m: int)
    requires
        d.order_key() >= m,
        forall|k: int| 0 <= k < s.len() ==> s[k].order_key() >= m,
    ensures
        insert_by_depth(s, d).len() == s.len() + 1,
        forall|k: int|
            0 <= k < insert_by_depth(s, d).len() ==> insert_by_depth(s, d)[k].order_key() >= m,
    decreases s.len(),
{
    if s.len() > 0 && !(d.order_key() < s[0].order_key()) {
        lemma_insert_lower_bound(s.drop_first(), d, m);
        let t = insert_by_depth(s.drop_first(), d);
        assert forall|k: int| 0 <= k < insert_by_depth(s, d).len() implies insert_by_depth(
            s,
            d,
        )[k].order_key() >= m by {
            if k > 0 {
                assert(insert_by_depth(s, d)[k] == t[k - 1]);
            }
        }
    }
}

proof fn lemma_insert_sorted(s: Seq<Drawable>, d: Drawable)
    requires
        depth_sorted(s),
    ensures
        depth_sorted(insert_by_depth(s, d)),
        insert_by_depth(s, d).len() == s.len() + 1,
    decreases s.len(),
{
    if s.len() == 0 {
    } else if d.order_key() < s[0].order_key() {
        let r = seq![d] + s;
        assert forall|i: int, j: int| 0 <= i < j < r.len() implies r[i].order_key()
            <= r[j].order_key() by {
            if i == 0 {
                assert(s[0].order_key() <= s[j - 1].order_key());
            }
        }
    } else {
        let rest = s.drop_first();
        assert(depth_sorted(rest)) by {
            assert forall|i: int, j: int| 0 <= i < j < rest.len() implies rest[i].order_key()
                <= rest[j].order_key() by {
                assert(rest[i] == s[i + 1] && rest[j] == s[j + 1]);
            }
        }
        lemma_insert_sorted(rest, d);
        assert forall|k: int| 0 <= k < rest.len() implies rest[k].order_key()
            >= s[0].order_key() by {
            assert(rest[k] == s[k + 1]);
        }
        lemma_insert_lower_bound(rest, d, s[0].order_key());
        let t = insert_by_depth(rest, d);
        let r = seq![s[0]] + t;
        assert forall|i: int, j: int| 0 <= i < j < r.len() implies r[i].order_key()
            <= r[j].order_key() by {
            if i == 0 {
                assert(r[j] == t[j - 1]);
            } else {
                assert(r[i] == t[i - 1] && r[j] == t[j - 1]);
            }
        }
    }
}

/// The painter's order is sorted by altitude, then by rank, and keeps every drawable.
pub proof fn lemma_sort_by_depth_sorted(s: Seq<Drawable>)
    ensures
        depth_sorted(sort_by_depth(s)),
        sort_by_depth(s).len() == s.len(),
    decreases s.len(),
{
    if s.len() > 0 {
        lemma_sort_by_depth_sorted(s.drop_last());
        lemma_insert_sorted(sort_by_depth(s.drop_last()), s.last());
    }
}

/// Of two statics at the same altitude, the painter's order puts the background one
/// strictly before the other.
pub proof fn lemma_background_static_first(s: Seq<Drawable>, i: int, j: int)
    requires
        0 <= i < sort_by_depth(s).len(),
        0 <= j < sort_by_depth(s).len(),
        sort_by_depth(s)[i].item matches DrawableItem::Static { tiledata, .. }
            && tiledata.spec_is_background(),
        sort_by_depth(s)[j].item matches DrawableItem::Static { tiledata, .. }
            && !tiledata.spec_is_background(),
        sort_by_depth(s)[i].depth == sort_by_depth(s)[j].depth,
    ensures
        i < j,
{
    lemma_sort_by_depth_sorted(s);
    let o = sort_by_depth(s);
    assert(o[i].order_key() < o[j].order_key());
    if j < i {
        assert(o[j].order_key() <= o[i].order_key());
    }
}

/// Sorts the drawables of one cell into painter's order.
pub fn sort_drawables(items: &Vec<Drawable>) -> (r: Vec<Drawable>)
    ensures
        r@ == sort_by_depth(items@),
{
    let mut out: Vec<Drawable> = Vec::new();
    let mut i: usize = 0;
    while i < items.len()
        invariant
            i <= items@.len(),
            out@ == sort_by_depth(items@.subrange(0, i as int)),
        decreases items@.len() - i,
    {
        proof {
            let pre = items@.subrange(0, i + 1);
            assert(pre.drop_last() =~= items@.subrange(0, i as int));
            assert(pre.last() == items@[i as int]);
        }
        insert_sorted(&mut out, items[i]);
        i = i + 1;
    }
    assert(items@.subrange(0, items@.len() as int) =~= items@);
    out
}

} // verus!
