use vstd::prelude::*;
use crate::altitude::Altitudes;
use crate::art::{ArtCache, MapTileData, TexMapCache};
use crate::asset_cache::{known, lookup_of};
use crate::block::{Block, Cell, StaticLocation, cells_of};
use crate::render::{
    Drawable, DrawableItem, HEIGHT_STEP, Point, TILE_HALF, TILE_SIZE, cell_offset, count_where,
    variant_code, lemma_count_append, lemma_count_sorted, skew, skew_quad, sort_by_depth, sort_drawables,
};

verus! {

/// The drawables of an optional entry, as a sequence of zero or one.
pub open spec fn opt_seq(o: Option<Drawable>) -> Seq<Drawable> {
    match o {
        Some(d) => seq![d],
        None => Seq::empty(),
    }
}

/// Where the top-left corner of the art of cell `(x, y)` goes, for a block anchored at
/// `offset`, lifted by `lift` pixels.
pub open spec fn cell_anchor(offset: Point, x: int, y: int, lift: int) -> Point {
    Point {
        x: (offset.x + cell_offset(x, y).0) as i64,
        y: (offset.y + cell_offset(x, y).1 - lift) as i64,
    }
}

/// The terrain drawable of cell `(x, y)`: its flat art where all corners are level, its
/// texture on a skewed quad otherwise; nothing where the art or texture is not available.
pub open spec fn terrain_drawable(
    offset: Point,
    x: int,
    y: int,
    cell: Cell,
    alt: Altitudes,
    art: ArtCache,
    texmaps: TexMapCache,
) -> Option<Drawable> {
    match known(art.tiles@, cell.graphic as u32) {
        None => None,
        Some(td) => {
            let anchor = cell_anchor(offset, x, y, HEIGHT_STEP * cell.altitude);
            if alt.is_flat() {
                Some(
                    Drawable {
                        item: DrawableItem::Tile { graphic: cell.graphic, tiledata: td },
                        anchor,
                        depth: cell.altitude as i64,
                    },
                )
            } else if known(texmaps.textures@, td.texture_id as u32) is Some {
                Some(
                    Drawable {
                        item: DrawableItem::Skewable {
                            texture_id: td.texture_id,
                            quad: skew_quad(alt),
                            tiledata: td,
                        },
                        anchor,
                        depth: (cell.altitude - 1) as i64,
                    },
                )
            } else {
                None
            }
        },
    }
}

/// The drawable of static `s` if it stands in cell `(x, y)` and its art is available;
/// it is lifted by its altitude and raised by its image height so that it stands on the tile.
pub open spec fn static_drawable(
    offset: Point,
    x: int,
    y: int,
    s: StaticLocation,
    art: ArtCache,
) -> Option<Drawable> {
    if s.x == x && s.y == y {
        match known(art.statics@, s.object_id as u32) {
            Some(a) => Some(
                Drawable {
                    item: DrawableItem::Static { object_id: s.object_id, tiledata: a.tiledata },
                    anchor: cell_anchor(
                        offset,
                        x,
                        y,
                        HEIGHT_STEP * s.altitude + a.image_height - TILE_SIZE,
                    ),
                    depth: s.altitude as i64,
                },
            ),
            None => None,
        }
    } else {
        None
    }
}

/// The drawables of the statics of `statics` that stand in cell `(x, y)`, in list order.
pub open spec fn cell_statics(
    offset: Point,
    x: int,
    y: int,
    statics: Seq<StaticLocation>,
    art: ArtCache,
) -> Seq<Drawable>
    decreases statics.len(),
{
    if statics.len() == 0 {
        Seq::empty()
    } else {
        cell_statics(offset, x, y, statics.drop_last(), art) + opt_seq(
            static_drawable(offset, x, y, statics.last(), art),
        )
    }
}

/// The terrain drawable of cell `i` of a block, if the block is present.
pub open spec fn cell_terrain(
    offset: Point,
    block: Option<Seq<Cell>>,
    altitudes: Seq<Altitudes>,
    art: ArtCache,
    texmaps: TexMapCache,
    i: int,
) -> Seq<Drawable> {
    match block {
        Some(b) => opt_seq(
            terrain_drawable(offset, i % 8, i / 8, b[i], altitudes[i], art, texmaps),
        ),
        None => Seq::empty(),
    }
}

/// Everything drawn for cell `i`, before ordering: its terrain, then its statics.
pub open spec fn cell_items(
    offset: Point,
    block: Option<Seq<Cell>>,
    statics: Seq<StaticLocation>,
    altitudes: Seq<Altitudes>,
    art: ArtCache,
    texmaps: TexMapCache,
    i: int,
) -> Seq<Drawable> {
    cell_terrain(offset, block, altitudes, art, texmaps, i) + cell_statics(
        offset,
        i % 8,
        i / 8,
        statics,
        art,
    )
}

/// The draw list of cells `0 .. n` of a block, each cell in painter's order.
pub open spec fn block_drawables(
    offset: Point,
    block: Option<Seq<Cell>>,
    statics: Seq<StaticLocation>,
    altitudes: Seq<Altitudes>,
    art: ArtCache,
    texmaps: TexMapCache,
    n: int,
) -> Seq<Drawable>
    decreases n,
{
    if n <= 0 {
        Seq::empty()
    } else {
        block_drawables(offset, block, statics, altitudes, art, texmaps, n - 1) + sort_by_depth(
            cell_items(offset, block, statics, altitudes, art, texmaps, n - 1),
        )
    }
}

proof fn lemma_statics_hold_no_terrain(
    offset: Point,
    x: int,
    y: int,
    statics: Seq<StaticLocation>,
    art: ArtCache,
)
    ensures
        count_where(cell_statics(offset, x, y, statics, art), 1) == 0,
        count_where(cell_statics(offset, x, y, statics, art), 2) == 0,
    decreases statics.len(),
{
    if statics.len() > 0 {
        let prev = cell_statics(offset, x, y, statics.drop_last(), art);
        let last = opt_seq(static_drawable(offset, x, y, statics.last(), art));
        lemma_statics_hold_no_terrain(offset, x, y, statics.drop_last(), art);
        lemma_count_append(prev, last, 1);
        lemma_count_append(prev, last, 2);
        assert(count_where(Seq::<Drawable>::empty(), 1) == 0);
        assert(count_where(Seq::<Drawable>::empty(), 2) == 0);
        if last.len() > 0 {
            assert(last.drop_first() =~= Seq::<Drawable>::empty());
            assert(variant_code(last[0]) == 0);
        }
        assert(cell_statics(offset, x, y, statics, art) == prev + last);
    }
}

/// A cell whose four corners are level is drawn with exactly one flat tile and no skewed
/// mesh; a cell with a differing corner gets no flat tile, and one skewed mesh where its
/// texture is available. Both provided the cell's terrain art is available.
pub proof fn lemma_flat_or_skewed(
    offset: Point,
    block: Seq<Cell>,
    statics: Seq<StaticLocation>,
    altitudes: Seq<Altitudes>,
    art: ArtCache,
    texmaps: TexMapCache,
    i: int,
)
    requires
        0 <= i < 64,
        block.len() == 64,
        altitudes.len() == 64,
        known(art.tiles@, block[i].graphic as u32) is Some,
    ensures
        ({
            let drawn = sort_by_depth(
                cell_items(offset, Some(block), statics, altitudes, art, texmaps, i),
            );
            let td = known(art.tiles@, block[i].graphic as u32)->Some_0;
            &&& altitudes[i].is_flat() ==> count_where(drawn, 1) == 1
                && count_where(drawn, 2) == 0
            &&& !altitudes[i].is_flat() ==> count_where(drawn, 1) == 0
            &&& !altitudes[i].is_flat() && known(texmaps.textures@, td.texture_id as u32) is Some
                ==> count_where(drawn, 2) == 1
        }),
{
    let items = cell_items(offset, Some(block), statics, altitudes, art, texmaps, i);
    let terrain = cell_terrain(offset, Some(block), altitudes, art, texmaps, i);
    let on_cell = cell_statics(offset, i % 8, i / 8, statics, art);
    let is_tile = 1int;
    let is_skewable = 2int;
    lemma_count_sorted(items, is_tile);
    lemma_count_sorted(items, is_skewable);
    lemma_count_append(terrain, on_cell, is_tile);
    lemma_count_append(terrain, on_cell, is_skewable);
    lemma_statics_hold_no_terrain(offset, i % 8, i / 8, statics, art);
    assert(count_where(Seq::<Drawable>::empty(), 1) == 0);
    assert(count_where(Seq::<Drawable>::empty(), 2) == 0);
    if terrain.len() > 0 {
        assert(terrain.drop_first() =~= Seq::<Drawable>::empty());
    }
    assert(items == terrain + on_cell);
}

/// The terrain graphics of cells `0 .. n` of `block` that the art cache knows nothing of,
/// in cell order.
pub open spec fn unknown_tiles(block: Seq<Cell>, art: ArtCache, n: int) -> Seq<u32>
    decreases n,
{
    if n <= 0 {
        Seq::empty()
    } else {
        unknown_tiles(block, art, n - 1) + if lookup_of(art.tiles@, block[n - 1].graphic as u32)
            is Unknown {
            seq![block[n - 1].graphic as u32]
        } else {
            Seq::empty()
        }
    }
}

/// The graphics of the statics of `statics` that the art cache knows nothing of, in list order.
pub open spec fn unknown_statics(statics: Seq<StaticLocation>, art: ArtCache) -> Seq<u32>
    decreases statics.len(),
{
    if statics.len() == 0 {
        Seq::empty()
    } else {
        unknown_statics(statics.drop_last(), art) + if lookup_of(
            art.statics@,
            statics.last().object_id as u32,
        ) is Unknown {
            seq![statics.last().object_id as u32]
        } else {
            Seq::empty()
        }
    }
}

/// The textures of the sloped cells among `0 .. n` whose tiledata is known and which the
/// texture cache knows nothing of, in cell order.
pub open spec fn unknown_texmaps(
    block: Seq<Cell>,
    altitudes: Seq<Altitudes>,
    art: ArtCache,
    texmaps: TexMapCache,
    n: int,
) -> Seq<u32>
    decreases n,
{
    if n <= 0 {
        Seq::empty()
    } else {
        unknown_texmaps(block, altitudes, art, texmaps, n - 1) + match known(
            art.tiles@,
            block[n - 1].graphic as u32,
        ) {
            Some(td) => if !altitudes[n - 1].is_flat() && lookup_of(
                texmaps.textures@,
                td.texture_id as u32,
            ) is Unknown {
                seq![td.texture_id as u32]
            } else {
                Seq::empty()
            },
            None => Seq::empty(),
        }
    }
}

/// The terrain graphics of `block` still to be decoded into the art cache before the
/// block can be drawn in full; an id may repeat.
pub fn missing_tiles(block: &Block, art: &ArtCache) -> (r: Vec<u32>)
    requires
        block.wf(),
    ensures
        r@ == unknown_tiles(block@, *art, 64),
{
    let mut out: Vec<u32> = Vec::new();
    let mut i: usize = 0;
    while i < 64
        invariant
            i <= 64,
            block.wf(),
            out@ == unknown_tiles(block@, *art, i as int),
        decreases 64 - i,
    {
        let g = block.cells[i].graphic as u32;
        if art.read_tile(g).is_unknown() {
            out.push(g);
        }
        i = i + 1;
        assert(out@ =~= unknown_tiles(block@, *art, i as int));
    }
    out
}

/// The static graphics of `statics` still to be decoded into the art cache; an id may repeat.
pub fn missing_statics(statics: &Vec<StaticLocation>, art: &ArtCache) -> (r: Vec<u32>)
    ensures
        r@ == unknown_statics(statics@, *art),
{
    let mut out: Vec<u32> = Vec::new();
    let mut k: usize = 0;
    while k < statics.len()
        invariant
            k <= statics@.len(),
            out@ == unknown_statics(statics@.subrange(0, k as int), *art),
        decreases statics@.len() - k,
    {
        proof {
            let pre = statics@.subrange(0, k + 1);
            assert(pre.drop_last() =~= statics@.subrange(0, k as int));
        }
        let id = statics[k].object_id as u32;
        if art.read_static(id).is_unknown() {
            out.push(id);
        }
        k = k + 1;
        assert(out@ =~= unknown_statics(statics@.subrange(0, k as int), *art));
    }
    assert(statics@.subrange(0, statics@.len() as int) =~= statics@);
    out
}

/// The textures still to be decoded into the texture cache for the sloped cells of
/// `block` whose tiledata is known; an id may repeat. Ask again once new tiledata came in.
pub fn missing_texmaps(
    block: &Block,
    altitudes: &Vec<Altitudes>,
    art: &ArtCache,
    texmaps: &TexMapCache,
) -> (r: Vec<u32>)
    requires
        block.wf(),
        altitudes@.len() == 64,
    ensures
        r@ == unknown_texmaps(block@, altitudes@, *art, *texmaps, 64),
{
    let mut out: Vec<u32> = Vec::new();
    let mut i: usize = 0;
    while i < 64
        invariant
            i <= 64,
            block.wf(),
            altitudes@.len() == 64,
            out@ == unknown_texmaps(block@, altitudes@, *art, *texmaps, i as int),
        decreases 64 - i,
    {
        match art.tiles.get(block.cells[i].graphic as u32) {
            Some(td) => {
                let a = altitudes[i];
                let flat = a.x1y1 == a.x2y1 && a.x1y1 == a.x1y2 && a.x1y1 == a.x2y2;
                if !flat && texmaps.read_texmap(td.texture_id as u32).is_unknown() {
                    out.push(td.texture_id as u32);
                }
            },
            None => {},
        }
        i = i + 1;
        assert(out@ =~= unknown_texmaps(block@, altitudes@, *art, *texmaps, i as int));
    }
    out
}

fn anchor_at(offset: Point, x: usize, y: usize, lift: i64) -> (r: Point)
    requires
        offset.in_range(),
        x < 8,
        y < 8,
        -0x10_0000 <= lift <= 0x10_0000,
    ensures
        r == cell_anchor(offset, x as int, y as int, lift as int),
{
    let cx = x as i64;
    let cy = y as i64;
    Point {
        x: offset.x + (TILE_HALF * 7 + TILE_HALF * cx - TILE_HALF * cy),
        y: offset.y + (TILE_HALF * cy + TILE_HALF * cx) - lift,
    }
}

fn terrain_for(
    offset: Point,
    x: usize,
    y: usize,
    cell: Cell,
    alt: &Altitudes,
    art: &ArtCache,
    texmaps: &TexMapCache,
) -> (r: Option<Drawable>)
    requires
        offset.in_range(),
        x < 8,
        y < 8,
    ensures
        r == terrain_drawable(offset, x as int, y as int, cell, *alt, *art, *texmaps),
{
    match art.tiles.get(cell.graphic as u32) {
        None => None,
        Some(td) => {
            let anchor = anchor_at(offset, x, y, HEIGHT_STEP * cell.altitude as i64);
            if alt.x1y1 == alt.x2y1 && alt.x1y1 == alt.x1y2 && alt.x1y1 == alt.x2y2 {
                Some(
                    Drawable {
                        item: DrawableItem::Tile { graphic: cell.graphic, tiledata: td },
                        anchor,
                        depth: cell.altitude as i64,
                    },
                )
            } else if texmaps.has_texmap(td.texture_id as u32) {
                Some(
                    Drawable {
                        item: DrawableItem::Skewable {
                            texture_id: td.texture_id,
                            quad: skew(alt),
                            tiledata: td,
                        },
                        anchor,
                        depth: cell.altitude as i64 - 1,
                    },
                )
            } else {
                None
            }
        },
    }
}

fn static_for(offset: Point, x: usize, y: usize, s: StaticLocation, art: &ArtCache) -> (r: Option<
    Drawable,
>)
    requires
        offset.in_range(),
        x < 8,
        y < 8,
    ensures
        r == static_drawable(offset, x as int, y as int, s, *art),
{
    if s.x as usize == x && s.y as usize == y {
        match art.statics.get(s.object_id as u32) {
            Some(a) => {
                let lift = HEIGHT_STEP * s.altitude as i64 + a.image_height as i64 - TILE_SIZE;
                Some(
                    Drawable {
                        item: DrawableItem::Static { object_id: s.object_id, tiledata: a.tiledata },
                        anchor: anchor_at(offset, x, y, lift),
                        depth: s.altitude as i64,
                    },
                )
            },
            None => None,
        }
    } else {
        None
    }
}

/// Composes the draw list of one block anchored at `offset`: for each cell in row order,
/// its terrain drawable and the drawables of the statics standing in it, sorted into
/// painter's order. Art or textures that are not available are left out.
pub fn draw_block(
    offset: Point,
    block: Option<&Block>,
    statics: &Vec<StaticLocation>,
    altitudes: &Vec<Altitudes>,
    art: &ArtCache,
    texmaps: &TexMapCache,
) -> (r: Vec<Drawable>)
    requires
        offset.in_range(),
        block matches Some(b) ==> b.wf() && altitudes@.len() == 64,
    ensures
        r@ == block_drawables(
            offset,
            cells_of(block),
            statics@,
            altitudes@,
            *art,
            *texmaps,
            64,
        ),
{
    let mut out: Vec<Drawable> = Vec::new();
    let mut i: usize = 0;
    while i < 64
        invariant
            i <= 64,
            offset.in_range(),
            block matches Some(b) ==> b.wf() && altitudes@.len() == 64,
            out@ == block_drawables(
                offset,
                cells_of(block),
                statics@,
                altitudes@,
                *art,
                *texmaps,
                i as int,
            ),
        decreases 64 - i,
    {
        let x: usize = i % 8;
        let y: usize = i / 8;
        let mut items: Vec<Drawable> = Vec::new();
        match block {
            Some(b) => match terrain_for(offset, x, y, b.cells[i], &altitudes[i], art, texmaps) {
                Some(d) => items.push(d),
                None => {},
            },
            None => {},
        }
        let ghost terrain = items@;
        assert(terrain == cell_terrain(offset, cells_of(block), altitudes@, *art, *texmaps, i as int));
        let mut k: usize = 0;
        while k < statics.len()
            invariant
                k <= statics@.len(),
                offset.in_range(),
                x < 8,
                y < 8,
                x == i % 8,
                y == i / 8,
                items@ == terrain + cell_statics(
                    offset,
                    x as int,
                    y as int,
                    statics@.subrange(0, k as int),
                    *art,
                ),
            decreases statics@.len() - k,
        {
            proof {
                let pre = statics@.subrange(0, k + 1);
                assert(pre.drop_last() =~= statics@.subrange(0, k as int));
                assert(pre.last() == statics@[k as int]);
            }
            match static_for(offset, x, y, statics[k], art) {
                Some(d) => {
                    items.push(d);
                },
                None => {},
            }
            k = k + 1;
            proof {
                let pre = statics@.subrange(0, k as int);
                assert(items@ =~= terrain + cell_statics(offset, x as int, y as int, pre, *art));
            }
        }
        assert(statics@.subrange(0, statics@.len() as int) =~= statics@);
        let mut sorted = sort_drawables(&items);
        out.append(&mut sorted);
        i = i + 1;
    }
    out
}

} // verus!
