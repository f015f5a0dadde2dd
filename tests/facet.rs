use uoviewer::altitude::{read_altitudes, Altitudes};
use uoviewer::block::{Block, Cell, StaticLocation};
use uoviewer::facet_cache::{BlockError, BlockStatus, FacetCache};
use uoviewer::lens::MapLens;

fn uniform(graphic: u16, altitude: i8) -> Block {
    Block { cells: vec![Cell { graphic, altitude }; 64] }
}

fn ramp() -> Block {
    // altitude of cell (x, y) is x + 8 * y
    let cells = (0..64).map(|i| Cell { graphic: 1, altitude: i as i8 }).collect();
    Block { cells }
}

fn placed(object_id: u16, x: u8, y: u8, altitude: i8) -> StaticLocation {
    StaticLocation { object_id, x, y, altitude }
}

#[test]
fn altitudes_inside_block_read_neighbouring_cells() {
    let own = ramp();
    let alts = read_altitudes(&own, None, None, None);
    assert_eq!(alts.len(), 64);
    assert_eq!(alts[0], Altitudes { x1y1: 0, x2y1: 1, x1y2: 8, x2y2: 9 });
    assert_eq!(alts[6 * 8 + 3], Altitudes { x1y1: 51, x2y1: 52, x1y2: 59, x2y2: 60 });
}

#[test]
fn altitudes_borrow_from_neighbour_blocks() {
    let own = uniform(1, 0);
    let east = ramp();
    let south = uniform(1, 20);
    let southeast = uniform(1, 30);
    let alts = read_altitudes(&own, Some(&east), Some(&south), Some(&southeast));
    // last column, row 2: east column 0 of row 2, south-east from east row 3
    assert_eq!(alts[2 * 8 + 7], Altitudes { x1y1: 0, x2y1: 16, x1y2: 0, x2y2: 24 });
    // last row, column 4: south row 0
    assert_eq!(alts[7 * 8 + 4], Altitudes { x1y1: 0, x2y1: 0, x1y2: 20, x2y2: 20 });
    // south-east corner cell
    assert_eq!(alts[63], Altitudes { x1y1: 0, x2y1: 56, x1y2: 20, x2y2: 30 });
}

#[test]
fn altitudes_fall_back_to_own_height_at_facet_edge() {
    let own = ramp();
    let alts = read_altitudes(&own, None, None, None);
    for row in 0..8 {
        let a = alts[row * 8 + 7];
        assert_eq!(a.x2y1, a.x1y1);
        assert_eq!(a.x2y2, a.x1y1);
    }
    for col in 0..8 {
        let a = alts[7 * 8 + col];
        assert_eq!(a.x1y2, a.x1y1);
        assert_eq!(a.x2y2, a.x1y1);
    }
}

#[test]
fn altitudes_agree_across_shared_edge() {
    let west = uniform(1, 3);
    let east = ramp();
    let west_alts = read_altitudes(&west, Some(&east), None, None);
    let east_alts = read_altitudes(&east, None, None, None);
    for row in 0..8 {
        assert_eq!(west_alts[row * 8 + 7].x2y1, east_alts[row * 8].x1y1);
    }
}

fn loaded_store(width: u32, height: u32) -> FacetCache {
    let mut store = FacetCache::new(width, height);
    for y in 0..height {
        for x in 0..width {
            store.store(x, y, Some(uniform((x + 100 * y) as u16, 0)), Some(vec![]));
        }
    }
    store
}

#[test]
fn store_reports_status_of_each_coordinate() {
    let mut store = FacetCache::new(4, 3);
    assert_eq!(store.width_blocks(), 4);
    assert_eq!(store.height_blocks(), 3);
    assert_eq!(store.status(1, 1), BlockStatus::NotLoaded);
    assert_eq!(store.status(4, 0), BlockStatus::OutOfRange);
    assert_eq!(store.status(0, 3), BlockStatus::OutOfRange);
    store.store(1, 1, Some(uniform(5, 0)), None);
    assert_eq!(store.status(1, 1), BlockStatus::Loaded);
    store.store(2, 1, None, Some(vec![placed(9, 0, 0, 0)]));
    assert_eq!(store.status(2, 1), BlockStatus::LoadFailed);
    store.store(3, 1, Some(Block { cells: vec![Cell { graphic: 1, altitude: 0 }; 63] }), None);
    assert_eq!(store.status(3, 1), BlockStatus::LoadFailed);
    store.store(9, 9, Some(uniform(5, 0)), None);
    assert_eq!(store.status(9, 9), BlockStatus::OutOfRange);
}

#[test]
fn store_never_replaces_a_recorded_entry() {
    let mut store = FacetCache::new(4, 4);
    store.store(0, 0, Some(uniform(7, 1)), Some(vec![placed(3, 1, 1, 0)]));
    store.store(0, 0, Some(uniform(8, 2)), None);
    let entry = store.get_block(0, 0).unwrap();
    assert_eq!(entry.block.as_ref().unwrap().cells[0], Cell { graphic: 7, altitude: 1 });
    assert_eq!(entry.statics, vec![placed(3, 1, 1, 0)]);
    assert!(store.get_block(1, 0).is_none());
    assert!(store.get_block(10, 0).is_none());
}

#[test]
fn pending_lists_block_and_missing_neighbours() {
    let mut store = FacetCache::new(4, 4);
    assert_eq!(store.pending(1, 1), vec![(1, 1), (2, 1), (1, 2), (2, 2)]);
    store.store(2, 1, Some(uniform(1, 0)), None);
    assert_eq!(store.pending(1, 1), vec![(1, 1), (1, 2), (2, 2)]);
    // at the south-east corner no neighbour lies in the facet
    assert_eq!(store.pending(3, 3), vec![(3, 3)]);
    assert_eq!(store.pending(7, 7), vec![]);
}

#[test]
fn read_block_reports_each_error() {
    let mut store = FacetCache::new(4, 4);
    assert_eq!(store.read_block(4, 0).unwrap_err(), BlockError::OutOfRange);
    assert_eq!(store.read_block(0, 0).unwrap_err(), BlockError::NotLoaded);
    store.store(0, 0, Some(uniform(1, 0)), None);
    assert_eq!(store.read_block(0, 0).unwrap_err(), BlockError::NotLoaded);
    store.store(1, 1, None, None);
    assert_eq!(store.read_block(1, 1).unwrap_err(), BlockError::LoadFailed);
}

#[test]
fn read_block_twice_is_identical_and_needs_no_decode() {
    let mut store = loaded_store(3, 3);
    let first = store.read_block(1, 1).unwrap();
    assert!(store.pending(1, 1).is_empty());
    let second = store.read_block(1, 1).unwrap();
    assert_eq!(first.0 .0.cells, second.0 .0.cells);
    assert_eq!(first.0 .1, second.0 .1);
    assert_eq!(first.1, second.1);
    assert_eq!(first.0 .0.cells[0].graphic, 101);
}

#[test]
fn read_block_uses_failed_neighbour_as_missing() {
    let mut store = FacetCache::new(2, 1);
    store.store(0, 0, Some(uniform(1, 4)), Some(vec![placed(2, 3, 3, 1)]));
    store.store(1, 0, None, None);
    let ((block, statics), alts) = store.read_block(0, 0).unwrap();
    assert_eq!(block.cells.len(), 64);
    assert_eq!(statics, vec![placed(2, 3, 3, 1)]);
    assert_eq!(alts[7], Altitudes { x1y1: 4, x2y1: 4, x1y2: 4, x2y2: 4 });
}

#[test]
fn corner_block_falls_back_to_own_height() {
    let mut store = FacetCache::new(3, 3);
    store.store(2, 2, Some(ramp()), None);
    let (_, alts) = store.read_block(2, 2).unwrap();
    assert_eq!(alts, read_altitudes(&ramp(), None, None, None));
    assert_eq!(alts[63], Altitudes { x1y1: 63, x2y1: 63, x1y2: 63, x2y2: 63 });
}

#[test]
fn lens_reuses_shared_columns_when_moved_one_block_east() {
    let store = loaded_store(20, 20);
    let lens = MapLens::new(&store, 10, 10, 4, 4).unwrap();
    assert_eq!(lens.blocks.len(), 16);
    let exposed = lens.exposed(11, 10);
    assert_eq!(exposed, vec![(14, 10), (14, 11), (14, 12), (14, 13)]);
    let moved = lens.update(&store, 11, 10).unwrap();
    assert_eq!((moved.x, moved.y, moved.width, moved.height), (11, 10, 4, 4));
    let mut reused = 0;
    for yy in 0..4usize {
        for xx in 0..4usize {
            let graphic = moved.blocks[yy * 4 + xx].block.as_ref().unwrap().cells[0].graphic;
            assert_eq!(graphic as usize, (11 + xx) + 100 * (10 + yy));
            if xx < 3 {
                let old = lens.blocks[yy * 4 + xx + 1].block.as_ref().unwrap().cells[0].graphic;
                assert_eq!(graphic, old);
                reused += 1;
            }
        }
    }
    assert_eq!(reused, 12);
    assert_eq!(16 - exposed.len(), 12);
}

#[test]
fn lens_move_past_its_width_refetches_everything() {
    let store = loaded_store(20, 20);
    let lens = MapLens::new(&store, 0, 0, 2, 2).unwrap();
    assert_eq!(lens.exposed(5, 5), vec![(5, 5), (6, 5), (5, 6), (6, 6)]);
    let moved = lens.update(&store, 5, 5).unwrap();
    assert_eq!(moved.blocks[3].block.as_ref().unwrap().cells[0].graphic, 606);
}

#[test]
fn lens_waits_for_undecoded_blocks_and_blanks_outside_facet() {
    let mut store = FacetCache::new(3, 3);
    assert!(MapLens::new(&store, 0, 0, 2, 2).is_none());
    store.store(2, 2, Some(uniform(4, 0)), None);
    let lens = MapLens::new(&store, 2, 2, 2, 1).unwrap();
    assert!(lens.blocks[0].block.is_some());
    assert!(lens.blocks[1].block.is_none());
    assert!(lens.blocks[1].statics.is_empty());
    assert!(lens.update(&store, 1, 2).is_none());
}

fn read_counting(store: &mut FacetCache, x: u32, y: u32, decodes: &mut usize) {
    for (px, py) in store.pending(x, y) {
        *decodes += 1;
        store.store(px, py, Some(uniform((px + py) as u16, 1)), Some(vec![]));
    }
}

#[test]
fn second_read_performs_no_decode() {
    let mut store = FacetCache::new(10, 10);
    let mut decodes = 0;
    read_counting(&mut store, 4, 4, &mut decodes);
    let first = store.read_block(4, 4).unwrap();
    assert_eq!(decodes, 4);
    read_counting(&mut store, 4, 4, &mut decodes);
    let second = store.read_block(4, 4).unwrap();
    assert_eq!(decodes, 4);
    assert_eq!(first.0 .0.cells, second.0 .0.cells);
    assert_eq!(first.1, second.1);
    // the east neighbour's own read needs only its missing neighbours
    read_counting(&mut store, 5, 4, &mut decodes);
    assert_eq!(decodes, 6);
}

#[test]
fn largest_facet_coordinates_are_handled() {
    let mut store = FacetCache::new(u32::MAX, u32::MAX);
    let edge = u32::MAX - 1;
    assert_eq!(store.status(edge, edge), BlockStatus::NotLoaded);
    assert_eq!(store.status(u32::MAX, 0), BlockStatus::OutOfRange);
    assert_eq!(store.pending(edge, edge), vec![(edge, edge)]);
    assert_eq!(store.pending(u32::MAX, u32::MAX), vec![]);
    store.store(edge, edge, Some(uniform(2, 9)), None);
    let (_, alts) = store.read_block(edge, edge).unwrap();
    assert_eq!(alts[63], Altitudes { x1y1: 9, x2y1: 9, x1y2: 9, x2y2: 9 });
    assert_eq!(store.status(edge, edge - 1), BlockStatus::NotLoaded);
}
