use uoviewer::altitude::{read_altitudes, Altitudes};
use uoviewer::art::{ArtCache, MapTileData, StaticArt, StaticTileData, TexMapCache, TexMapInfo};
use uoviewer::asset_cache::AssetLookup;
use uoviewer::block::{Block, Cell, StaticLocation};
use uoviewer::compose::draw_block;
use uoviewer::render::{
    block_at, cell_at, skew, sort_drawables, Drawable, DrawableItem, Point, Quad,
};

fn uniform(graphic: u16, altitude: i8) -> Block {
    Block { cells: vec![Cell { graphic, altitude }; 64] }
}

fn placed(object_id: u16, x: u8, y: u8, altitude: i8) -> StaticLocation {
    StaticLocation { object_id, x, y, altitude }
}

fn art_with(tile: u32, texture_id: u16) -> ArtCache {
    let mut art = ArtCache::new();
    art.tiles.record(tile, Some(MapTileData { flags: 0, texture_id }));
    art
}

fn static_drawable(object_id: u16, depth: i64, flags: u32) -> Drawable {
    Drawable {
        item: DrawableItem::Static { object_id, tiledata: StaticTileData { flags } },
        anchor: Point { x: 0, y: 0 },
        depth,
    }
}

#[test]
fn cell_and_block_placement() {
    assert_eq!(cell_at(0, 0), Point { x: 154, y: 0 });
    assert_eq!(cell_at(3, 3), Point { x: 154, y: 132 });
    assert_eq!(cell_at(7, 0), Point { x: 308, y: 154 });
    assert_eq!(block_at(0, 0), Point { x: 352, y: -528 });
    assert_eq!(block_at(1, 2), Point { x: 176, y: 0 });
}

#[test]
fn skew_lifts_right_and_bottom_corners() {
    let q = skew(&Altitudes { x1y1: 2, x2y1: 3, x1y2: 0, x2y2: 5 });
    assert_eq!(
        q,
        Quad {
            top: Point { x: 22, y: 0 },
            right: Point { x: 44, y: 18 },
            bottom: Point { x: 22, y: 32 },
            left: Point { x: 0, y: 30 },
        }
    );
    let extreme = skew(&Altitudes { x1y1: -128, x2y1: 127, x1y2: 127, x2y2: -128 });
    assert_eq!(extreme.right.y, 22 - 4 * 255);
    assert_eq!(extreme.bottom.y, 44);
}

#[test]
fn sort_orders_by_altitude_then_terrain_then_background() {
    let tile = Drawable {
        item: DrawableItem::Tile { graphic: 1, tiledata: MapTileData { flags: 0, texture_id: 0 } },
        anchor: Point { x: 0, y: 0 },
        depth: 5,
    };
    let front = static_drawable(10, 5, 0);
    let back = static_drawable(11, 5, 1);
    let low = static_drawable(12, 2, 0);
    let sorted = sort_drawables(&vec![front, back, tile, low]);
    assert_eq!(sorted, vec![low, tile, back, front]);
}

#[test]
fn background_static_sorts_before_foreground_at_same_altitude() {
    let front = static_drawable(10, 7, 0);
    let back = static_drawable(11, 7, 1);
    assert_eq!(sort_drawables(&vec![front, back]), vec![back, front]);
    assert_eq!(sort_drawables(&vec![back, front]), vec![back, front]);
}

#[test]
fn sort_keeps_equal_items_in_order() {
    let a = static_drawable(1, 3, 0);
    let b = static_drawable(2, 3, 0);
    assert_eq!(sort_drawables(&vec![a, b]), vec![a, b]);
    assert_eq!(sort_drawables(&vec![b, a]), vec![b, a]);
    assert!(sort_drawables(&vec![]).is_empty());
}

#[test]
fn flat_cell_gives_one_flat_tile() {
    let block = uniform(3, 0);
    let alts = read_altitudes(&block, None, None, None);
    let art = art_with(3, 9);
    let tex = TexMapCache::new();
    let out = draw_block(Point { x: 0, y: 0 }, Some(&block), &vec![], &alts, &art, &tex);
    assert_eq!(out.len(), 64);
    assert!(out.iter().all(|d| matches!(d.item, DrawableItem::Tile { graphic: 3, .. })));
    assert_eq!(out[0].anchor, Point { x: 154, y: 0 });
}

#[test]
fn sloped_cell_gives_skewed_mesh_instead() {
    let mut cells = vec![Cell { graphic: 3, altitude: 0 }; 64];
    cells[1].altitude = 2;
    let block = Block { cells };
    let alts = read_altitudes(&block, None, None, None);
    let art = art_with(3, 9);
    let mut tex = TexMapCache::new();
    tex.textures.record(9, Some(TexMapInfo { width: 64, height: 64 }));
    let out = draw_block(Point { x: 10, y: 20 }, Some(&block), &vec![], &alts, &art, &tex);
    assert_eq!(out.len(), 64);
    match out[0].item {
        DrawableItem::Skewable { texture_id, quad, .. } => {
            assert_eq!(texture_id, 9);
            assert_eq!(quad.right, Point { x: 44, y: 14 });
            assert_eq!(quad.bottom, Point { x: 22, y: 44 });
        }
        _ => panic!("cell 0 is sloped"),
    }
    assert_eq!(out[0].depth, -1);
    assert_eq!(out[0].anchor, Point { x: 164, y: 20 });
    let tiles = out.iter().filter(|d| matches!(d.item, DrawableItem::Tile { .. })).count();
    let skewed = out.iter().filter(|d| matches!(d.item, DrawableItem::Skewable { .. })).count();
    // cell 1 itself is sloped too: its south neighbour stands at 0
    assert_eq!(skewed, 2);
    assert_eq!(tiles, 62);
}

#[test]
fn sloped_cell_without_texture_is_left_out() {
    let mut cells = vec![Cell { graphic: 3, altitude: 0 }; 64];
    cells[1].altitude = 2;
    let block = Block { cells };
    let alts = read_altitudes(&block, None, None, None);
    let art = art_with(3, 9);
    let tex = TexMapCache::new();
    let out = draw_block(Point { x: 0, y: 0 }, Some(&block), &vec![], &alts, &art, &tex);
    assert_eq!(out.len(), 62);
}

#[test]
fn missing_art_is_left_out() {
    let block = uniform(3, 0);
    let alts = read_altitudes(&block, None, None, None);
    let art = ArtCache::new();
    let tex = TexMapCache::new();
    let statics = vec![placed(40, 1, 1, 0)];
    let out = draw_block(Point { x: 0, y: 0 }, Some(&block), &statics, &alts, &art, &tex);
    assert!(out.is_empty());
}

#[test]
fn statics_without_block_are_still_drawn() {
    let mut art = ArtCache::new();
    art.statics.record(
        40,
        Some(StaticArt { image_height: 44, tiledata: StaticTileData { flags: 0 } }),
    );
    let tex = TexMapCache::new();
    let statics = vec![placed(40, 1, 0, 0)];
    let out = draw_block(Point { x: 0, y: 0 }, None, &statics, &vec![], &art, &tex);
    assert_eq!(out.len(), 1);
    assert_eq!(out[0].anchor, Point { x: 176, y: 22 });
}

#[test]
fn end_to_end_flat_block_with_one_static() {
    let block = uniform(3, 0);
    let alts = read_altitudes(&block, None, None, None);
    let mut art = art_with(3, 9);
    let image_height: u16 = 60;
    art.statics.record(
        77,
        Some(StaticArt { image_height, tiledata: StaticTileData { flags: 0 } }),
    );
    let tex = TexMapCache::new();
    let statics = vec![placed(77, 3, 3, 2)];
    let offset = block_at(5, 5);
    let out = draw_block(offset, Some(&block), &statics, &alts, &art, &tex);
    let tiles: Vec<&Drawable> =
        out.iter().filter(|d| matches!(d.item, DrawableItem::Tile { .. })).collect();
    let statics_drawn: Vec<&Drawable> =
        out.iter().filter(|d| matches!(d.item, DrawableItem::Static { .. })).collect();
    assert_eq!(tiles.len(), 64);
    assert_eq!(statics_drawn.len(), 1);
    assert_eq!(out.len(), 65);
    let cell = cell_at(3, 3);
    let expected = Point {
        x: offset.x + cell.x,
        y: offset.y + cell.y - (2 * 4 + image_height as i64 - 44),
    };
    assert_eq!(statics_drawn[0].anchor, expected);
    assert_eq!(statics_drawn[0].depth, 2);
    // the static follows the tile of its cell, cell (3, 3) being the 28th
    assert!(matches!(out[3 * 8 + 3].item, DrawableItem::Tile { .. }));
    assert!(matches!(out[3 * 8 + 4].item, DrawableItem::Static { object_id: 77, .. }));
}

#[test]
fn static_below_its_tile_is_drawn_first() {
    let block = uniform(3, 5);
    let alts = read_altitudes(&block, None, None, None);
    let mut art = art_with(3, 9);
    art.statics.record(
        77,
        Some(StaticArt { image_height: 44, tiledata: StaticTileData { flags: 0 } }),
    );
    let tex = TexMapCache::new();
    let out =
        draw_block(Point { x: 0, y: 0 }, Some(&block), &vec![placed(77, 0, 0, 1)], &alts, &art, &tex);
    assert!(matches!(out[0].item, DrawableItem::Static { .. }));
    assert!(matches!(out[1].item, DrawableItem::Tile { .. }));
    assert_eq!(out[1].anchor, Point { x: 154, y: -20 });
}

#[test]
fn art_cache_records_hits_and_misses_once() {
    let mut art = ArtCache::new();
    assert_eq!(art.read_tile(5), AssetLookup::Unknown);
    art.tiles.record(5, None);
    assert_eq!(art.read_tile(5), AssetLookup::Missing);
    art.tiles.record(5, Some(MapTileData { flags: 1, texture_id: 2 }));
    assert_eq!(art.read_tile(5), AssetLookup::Missing);
    let info = StaticArt { image_height: 10, tiledata: StaticTileData { flags: 1 } };
    art.statics.record(6, Some(info));
    assert_eq!(art.read_static(6), AssetLookup::Present(info));
    assert!(info.tiledata.is_background());
    let mut tex = TexMapCache::new();
    assert_eq!(tex.read_texmap(1), AssetLookup::Unknown);
    assert!(!tex.has_texmap(1));
    tex.textures.record(1, Some(TexMapInfo { width: 64, height: 64 }));
    assert!(tex.has_texmap(1));
}
