use uoviewer::altitude::read_altitudes;
use uoviewer::art::{ArtCache, MapTileData, StaticArt, StaticTileData, TexMapCache, TexMapInfo};
use uoviewer::block::{Block, Cell, StaticLocation};
use uoviewer::compose::{draw_block, missing_statics, missing_texmaps, missing_tiles};
use uoviewer::facet_cache::FacetCache;
use uoviewer::map_view::{
    draw_full_block, draw_heightmap_block, draw_radarcol_block, draw_statics_block, get_last_patch,
    get_next_patch, MapAction, MapKey, MapMode, MapView,
};
use uoviewer::render::block_at;
use uoviewer::scene::{title_event, MenuKey, SceneChangeEvent, SceneName, SceneStack};
use uoviewer::world::{facet_index, WorldKey, WorldView};

fn uniform(graphic: u16, altitude: i8) -> Block {
    Block { cells: vec![Cell { graphic, altitude }; 64] }
}

fn placed(object_id: u16, x: u8, y: u8, altitude: i8) -> StaticLocation {
    StaticLocation { object_id, x, y, altitude }
}

#[test]
fn scene_stack_push_swap_pop() {
    let mut stack: SceneStack<u32> = SceneStack::new();
    assert!(stack.is_empty());
    assert_eq!(stack.swap(1), None);
    stack.push(2);
    assert_eq!(stack.swap(3), Some(2));
    assert_eq!(stack.pop(), Some(3));
    assert_eq!(stack.pop(), Some(1));
    assert_eq!(stack.pop(), None);
    assert!(stack.is_empty());
}

#[test]
fn scene_stack_applies_change_events() {
    let mut stack: SceneStack<u32> = SceneStack::new();
    assert_eq!(stack.apply(SceneChangeEvent::PushScene(1)), None);
    assert_eq!(stack.apply(SceneChangeEvent::PushScene(2)), None);
    assert_eq!(stack.apply(SceneChangeEvent::SwapScene(5)), Some(2));
    assert_eq!(stack.apply(SceneChangeEvent::PopScene), Some(5));
    assert_eq!(stack.apply(SceneChangeEvent::PopScene), Some(1));
    assert_eq!(stack.apply(SceneChangeEvent::PopScene), None);
}

#[test]
fn title_menu_maps_keys_to_scenes() {
    assert_eq!(title_event(MenuKey::Escape), Some(SceneChangeEvent::PopScene));
    assert_eq!(
        title_event(MenuKey::Digit(1)),
        Some(SceneChangeEvent::PushScene(SceneName::SkillsScene))
    );
    assert_eq!(
        title_event(MenuKey::Digit(9)),
        Some(SceneChangeEvent::PushScene(SceneName::WorldScene))
    );
    assert_eq!(
        title_event(MenuKey::Digit(0)),
        Some(SceneChangeEvent::PushScene(SceneName::FontScene))
    );
    assert_eq!(title_event(MenuKey::Digit(12)), None);
    assert_eq!(title_event(MenuKey::Other), None);
}

#[test]
fn world_view_pans_and_switches_facet() {
    let mut v = WorldView::new();
    assert_eq!((v.x, v.y, v.map_id), (160, 208, 0));
    assert!(!v.key_down_event(WorldKey::Left));
    assert!(!v.key_down_event(WorldKey::Down));
    assert_eq!((v.x, v.y), (159, 209));
    assert!(v.key_down_event(WorldKey::Tab));
    assert_eq!((v.x, v.y, v.map_id), (0, 0, 1));
    v.key_down_event(WorldKey::Left);
    v.key_down_event(WorldKey::Up);
    assert_eq!((v.x, v.y), (0, 0));
    for _ in 0..4 {
        v.key_down_event(WorldKey::Tab);
    }
    assert_eq!(v.map_id, 0);
    assert_eq!(v.update(), None);
    v.key_down_event(WorldKey::Escape);
    assert_eq!(v.update(), Some(SceneChangeEvent::PopScene));
}

#[test]
fn facet_index_falls_back_to_first_facet() {
    assert_eq!(facet_index(3), 3);
    assert_eq!(facet_index(4), 4);
    assert_eq!(facet_index(5), 0);
    assert_eq!(facet_index(200), 0);
}

#[test]
fn world_page_draws_every_readable_block() {
    let mut store = FacetCache::new(8, 8);
    let v = WorldView { x: 1, y: 1, map_id: 0, exiting: false };
    let pending = v.page_pending(&store);
    assert_eq!(pending.len(), 36 * 4);
    let mut distinct = pending.clone();
    distinct.sort();
    distinct.dedup();
    assert_eq!(distinct.len(), 7 * 7);
    for (x, y) in pending {
        store.store(x, y, Some(uniform(3, 0)), Some(vec![]));
    }
    assert!(v.page_pending(&store).is_empty());
    let mut art = ArtCache::new();
    art.tiles.record(3, Some(MapTileData { flags: 0, texture_id: 0 }));
    let tex = TexMapCache::new();
    let page = v.draw_page(&mut store, &art, &tex);
    assert_eq!(page.len(), 36 * 64);
    let first = draw_block(block_at(0, 0), Some(&uniform(3, 0)), &vec![], &read_altitudes(&uniform(3, 0), None, None, None), &art, &tex);
    assert_eq!(page[..64].to_vec(), first);
}

#[test]
fn world_page_leaves_out_blocks_past_the_facet() {
    let mut store = FacetCache::new(2, 2);
    for (x, y) in [(0, 0), (1, 0), (0, 1), (1, 1)] {
        store.store(x, y, Some(uniform(3, 0)), None);
    }
    let v = WorldView { x: 0, y: 0, map_id: 0, exiting: false };
    assert!(v.page_pending(&store).is_empty());
    let mut art = ArtCache::new();
    art.tiles.record(3, Some(MapTileData { flags: 0, texture_id: 0 }));
    let page = v.draw_page(&mut store, &art, &TexMapCache::new());
    assert_eq!(page.len(), 4 * 64);
}

#[test]
fn missing_assets_are_listed_for_decoding() {
    let mut cells = vec![Cell { graphic: 3, altitude: 0 }; 64];
    cells[5] = Cell { graphic: 4, altitude: 6 };
    let block = Block { cells };
    let mut art = ArtCache::new();
    let tiles = missing_tiles(&block, &art);
    assert_eq!(tiles.len(), 64);
    assert_eq!(tiles[5], 4);
    art.tiles.record(3, Some(MapTileData { flags: 0, texture_id: 30 }));
    art.tiles.record(4, None);
    assert!(missing_tiles(&block, &art).is_empty());
    let statics = vec![placed(10, 0, 0, 0), placed(11, 1, 0, 0)];
    art.statics.record(
        10,
        Some(StaticArt { image_height: 20, tiledata: StaticTileData { flags: 0 } }),
    );
    assert_eq!(missing_statics(&statics, &art), vec![11]);
    let alts = read_altitudes(&block, None, None, None);
    let mut tex = TexMapCache::new();
    // cells 4 and 5 have a raised corner; cell 5's own art is missing
    assert_eq!(missing_texmaps(&block, &alts, &art, &tex), vec![30]);
    tex.textures.record(30, Some(TexMapInfo { width: 64, height: 64 }));
    assert!(missing_texmaps(&block, &alts, &art, &tex).is_empty());
}

#[test]
fn heightmap_paints_altitude_as_grey() {
    let mut cells = vec![Cell { graphic: 1, altitude: 0 }; 64];
    cells[9].altitude = -128;
    cells[10].altitude = 127;
    let block = Block { cells };
    let mut bitmap = vec![7u8; 256];
    draw_heightmap_block(&mut bitmap, &block);
    assert_eq!(&bitmap[0..4], &[128, 128, 128, 255]);
    assert_eq!(&bitmap[36..40], &[0, 0, 0, 255]);
    assert_eq!(&bitmap[40..44], &[255, 255, 255, 255]);
}

#[test]
fn radar_map_paints_graphic_colours() {
    let mut cells = vec![Cell { graphic: 1, altitude: 0 }; 64];
    cells[2].graphic = 9;
    let block = Block { cells };
    let colors = vec![(0, 0, 0, 0), (10, 20, 30, 40)];
    let mut bitmap = vec![7u8; 256];
    draw_radarcol_block(&mut bitmap, &block, &colors);
    assert_eq!(&bitmap[0..4], &[10, 20, 30, 255]);
    assert_eq!(&bitmap[8..12], &[0, 0, 0, 255]);
}

#[test]
fn statics_map_paints_highest_static() {
    let mut colors = vec![(0u8, 0u8, 0u8, 0u8); 0x4000 + 20];
    colors[0x4000 + 5] = (5, 5, 5, 5);
    colors[0x4000 + 6] = (6, 6, 6, 6);
    colors[0x4000 + 7] = (7, 7, 7, 7);
    let statics = vec![placed(5, 1, 0, 3), placed(6, 1, 0, 9), placed(7, 1, 0, 4), placed(7, 0, 1, -127)];
    let mut bitmap = vec![1u8; 256];
    draw_statics_block(&mut bitmap, &statics, Some(&colors));
    assert_eq!(&bitmap[4..8], &[6, 6, 6, 255]);
    assert_eq!(&bitmap[32..36], &[1, 1, 1, 1]);
    let mut dark = vec![1u8; 256];
    draw_statics_block(&mut dark, &statics, None);
    assert_eq!(&dark[4..8], &[0, 0, 0, 255]);
    let block = uniform(2, 0);
    let mut full = vec![0u8; 256];
    colors[2] = (2, 2, 2, 2);
    draw_full_block(&mut full, &block, &statics, &colors);
    assert_eq!(&full[0..4], &[2, 2, 2, 255]);
    assert_eq!(&full[4..8], &[6, 6, 6, 255]);
}

#[test]
fn map_view_keys_pan_and_change_mode() {
    let mut v = MapView::new();
    assert_eq!(v.key_down_event(MapKey::Left), MapAction::Nothing);
    assert_eq!(v.key_down_event(MapKey::Right), MapAction::Redraw);
    assert_eq!(v.x, 25);
    assert_eq!(v.key_down_event(MapKey::Down), MapAction::Redraw);
    assert_eq!(v.y, 18);
    assert_eq!(v.key_down_event(MapKey::Mode(3)), MapAction::Redraw);
    assert_eq!(v.mode, MapMode::StaticsMap);
    assert_eq!(v.key_down_event(MapKey::Mode(7)), MapAction::Nothing);
    assert_eq!(v.key_down_event(MapKey::Tab), MapAction::SwitchFacet);
    assert_eq!((v.map_id, v.mode, v.x), (1, MapMode::HeightMap, 25));
    v.key_down_event(MapKey::Escape);
    assert_eq!(v.update(), Some(SceneChangeEvent::PopScene));
}

#[test]
fn map_view_bitmap_follows_mode() {
    let block = uniform(1, 2);
    let mut v = MapView::new();
    let colors = vec![(0, 0, 0, 0), (10, 20, 30, 40)];
    let grey = v.block_bitmap(&block, &vec![], Some(&colors), &vec![]);
    assert_eq!(&grey[0..4], &[130, 130, 130, 255]);
    v.key_down_event(MapKey::Mode(2));
    let radar = v.block_bitmap(&block, &vec![], None, &colors);
    assert_eq!(&radar[0..4], &[10, 20, 30, 255]);
}

#[test]
fn patches_step_to_neighbouring_keys() {
    let map_keys = vec![4, 10, 2];
    let static_keys = vec![7, 10, 15];
    assert_eq!(get_next_patch(&map_keys, &static_keys, 0), 2);
    assert_eq!(get_next_patch(&map_keys, &static_keys, 4), 7);
    assert_eq!(get_next_patch(&map_keys, &static_keys, 15), 15);
    assert_eq!(get_last_patch(&map_keys, &static_keys, 10), 7);
    assert_eq!(get_last_patch(&map_keys, &static_keys, 2), 2);
    assert_eq!(get_last_patch(&map_keys, &static_keys, 100), 15);
    assert_eq!(get_next_patch(&vec![], &vec![], 3), 3);
}
