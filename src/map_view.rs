use vstd::prelude::*;
use crate::block::{Block, Cell, StaticLocation};
use crate::scene::{SceneChangeEvent, SceneName};
use crate::world::FACET_COUNT;

verus! {

/// An RGBA colour.
pub type Rgba = (u8, u8, u8, u8);

/// Bytes in the RGBA bitmap of one block, one pixel per cell.
pub const BITMAP_BYTES: usize = 256;

/// Offset of the static colours in the radar colour table, after the terrain colours.
pub const STATIC_COLOR_BASE: u32 = 0x4000;

/// Width of the map page, in blocks.
pub const MAP_PAGE_WIDTH: u32 = 100;

/// Height of the map page, in blocks.
pub const MAP_PAGE_HEIGHT: u32 = 75;

/// Largest origin coordinate of the map page: the whole page stays addressable.
pub const MAP_MAX_ORIGIN: u32 = 0xffff_ff00;

/// Blocks moved per key press, across.
pub const MAP_STEP_X: u32 = 25;

/// Blocks moved per key press, down.
pub const MAP_STEP_Y: u32 = 18;

/// Byte `j` of a bitmap whose pixel `j / 4` has colour `c`, drawn opaque.
pub open spec fn pixel_byte(c: Rgba, j: int) -> u8 {
    if j % 4 == 0 {
        c.0
    } else if j % 4 == 1 {
        c.1
    } else if j % 4 == 2 {
        c.2
    } else {
        255
    }
}

/// The grey of a cell at `altitude`: the altitude shifted into `0 ..= 255`.
pub open spec fn height_grey(altitude: i8) -> u8 {
    (altitude + 128) as u8
}

/// The bitmap of a block with each cell in the grey of its altitude.
pub open spec fn heightmap_bitmap(cells: Seq<Cell>) -> Seq<u8> {
    Seq::new(
        256,
        |j: int|
            pixel_byte(
                (
                    height_grey(cells[j / 4].altitude),
                    height_grey(cells[j / 4].altitude),
                    height_grey(cells[j / 4].altitude),
                    255,
                ),
                j,
            ),
    )
}

/// Entry `i` of a colour table, black where the table is too short.
pub open spec fn table_color(colors: Seq<Rgba>, i: int) -> Rgba {
    if 0 <= i < colors.len() {
        colors[i]
    } else {
        (0, 0, 0, 0)
    }
}

/// The bitmap of a block with each cell in the radar colour of its graphic.
pub open spec fn radar_bitmap(cells: Seq<Cell>, colors: Seq<Rgba>) -> Seq<u8> {
    Seq::new(256, |j: int| pixel_byte(table_color(colors, cells[j / 4].graphic as int), j))
}

/// The radar colour of a static, black without a colour table.
pub open spec fn static_color(s: StaticLocation, colors: Option<Seq<Rgba>>) -> Rgba {
    match colors {
        Some(t) => table_color(t, s.object_id + STATIC_COLOR_BASE),
        None => (0, 0, 0, 0),
    }
}

/// `bitmap` with pixel `t` painted in colour `c`.
pub open spec fn paint(bitmap: Seq<u8>, t: int, c: Rgba) -> Seq<u8> {
    bitmap.update(4 * t, c.0).update(4 * t + 1, c.1).update(4 * t + 2, c.2).update(4 * t + 3, 255)
}

/// The bitmap and the per-cell height of the highest static painted so far, after painting
/// `statics` in order over `bitmap`: a static is painted where it stands higher than every
/// earlier one of its cell (and above -127).
pub open spec fn statics_paint(
    bitmap: Seq<u8>,
    statics: Seq<StaticLocation>,
    colors: Option<Seq<Rgba>>,
) -> (Seq<u8>, Seq<i8>)
    decreases statics.len(),
{
    if statics.len() == 0 {
        (bitmap, Seq::new(64, |i: int| -127i8))
    } else {
        let prev = statics_paint(bitmap, statics.drop_last(), colors);
        let s = statics.last();
        let t = s.x + s.y * 8;
        if s.x < 8 && s.y < 8 && prev.1[t] < s.altitude {
            (paint(prev.0, t, static_color(s, colors)), prev.1.update(t, s.altitude))
        } else {
            prev
        }
    }
}

fn set_pixel(bitmap: &mut Vec<u8>, t: usize, c: Rgba)
    requires
        old(bitmap)@.len() == 256,
        t < 64,
    ensures
        final(bitmap)@ == paint(old(bitmap)@, t as int, c),
{
    bitmap.set(4 * t, c.0);
    bitmap.set(4 * t + 1, c.1);
    bitmap.set(4 * t + 2, c.2);
    bitmap.set(4 * t + 3, 255);
}

proof fn lemma_painted_prefix(before: Seq<u8>, after: Seq<u8>, t: int, c: Rgba)
    requires
        before.len() == 256,
        0 <= t < 64,
        after == paint(before, t, c),
    ensures
        after.len() == 256,
        forall|j: int| 4 * t <= j < 4 * t + 4 ==> after[j] == pixel_byte(c, j),
        forall|j: int| 0 <= j < 256 && !(4 * t <= j < 4 * t + 4) ==> after[j] == before[j],
{
    assert forall|j: int| 4 * t <= j < 4 * t + 4 implies after[j] == pixel_byte(c, j) by {
        assert(j % 4 == j - 4 * t);
    }
}

/// Paints each cell of the block in the grey of its altitude.
pub fn draw_heightmap_block(bitmap: &mut Vec<u8>, block: &Block)
    requires
        old(bitmap)@.len() == BITMAP_BYTES,
        block.wf(),
    ensures
        final(bitmap)@ == heightmap_bitmap(block@),
{
    let ghost want = heightmap_bitmap(block@);
    let mut t: usize = 0;
    while t < 64
        invariant
            t <= 64,
            block.wf(),
            want == heightmap_bitmap(block@),
            bitmap@.len() == 256,
            forall|j: int| 0 <= j < 4 * t ==> bitmap@[j] == want[j],
        decreases 64 - t,
    {
        let g = (block.cells[t].altitude as i16 + 128) as u8;
        let ghost before = bitmap@;
        set_pixel(bitmap, t, (g, g, g, 255));
        proof {
            lemma_painted_prefix(before, bitmap@, t as int, (g, g, g, 255));
            assert forall|j: int| 4 * t <= j < 4 * t + 4 implies bitmap@[j] == want[j] by {
                assert(j / 4 == t);
            }
        }
        t = t + 1;
    }
    assert(bitmap@ =~= want);
}

fn color_at(colors: &Vec<Rgba>, i: usize) -> (r: Rgba)
    ensures
        r == table_color(colors@, i as int),
{
    if i < colors.len() {
        colors[i]
    } else {
        (0, 0, 0, 0)
    }
}

/// Paints each cell of the block in the radar colour of its graphic.
pub fn draw_radarcol_block(bitmap: &mut Vec<u8>, block: &Block, colors: &Vec<Rgba>)
    requires
        old(bitmap)@.len() == BITMAP_BYTES,
        block.wf(),
    ensures
        final(bitmap)@ == radar_bitmap(block@, colors@),
{
    let ghost want = radar_bitmap(block@, colors@);
    let mut t: usize = 0;
    while t < 64
        invariant
            t <= 64,
            block.wf(),
            want == radar_bitmap(block@, colors@),
            bitmap@.len() == 256,
            forall|j: int| 0 <= j < 4 * t ==> bitmap@[j] == want[j],
        decreases 64 - t,
    {
        let c = color_at(colors, block.cells[t].graphic as usize);
        let ghost before = bitmap@;
        set_pixel(bitmap, t, c);
        proof {
            lemma_painted_prefix(before, bitmap@, t as int, c);
            assert forall|j: int| 4 * t <= j < 4 * t + 4 implies bitmap@[j] == want[j] by {
                assert(j / 4 == t);
            }
        }
        t = t + 1;
    }
    assert(bitmap@ =~= want);
}

/// Paints each cell holding statics in the radar colour of its highest static.
pub fn draw_statics_block(
    bitmap: &mut Vec<u8>,
    statics: &Vec<StaticLocation>,
    colors: Option<&Vec<Rgba>>,
)
    requires
        old(bitmap)@.len() == BITMAP_BYTES,
    ensures
        final(bitmap)@ == statics_paint(
            old(bitmap)@,
            statics@,
            match colors {
                Some(c) => Some(c@),
                None => None,
            },
        ).0,
{
    let ghost table = match colors {
        Some(c) => Some(c@),
        None => None::<Seq<Rgba>>,
    };
    let ghost start = bitmap@;
    let mut highest: Vec<i8> = Vec::new();
    let mut i: usize = 0;
    while i < 64
        invariant
            i <= 64,
            highest@ == Seq::new(i as nat, |j: int| -127i8),
        decreases 64 - i,
    {
        highest.push(-127);
        i = i + 1;
        assert(highest@ =~= Seq::new(i as nat, |j: int| -127i8));
    }
    let mut k: usize = 0;
    while k < statics.len()
        invariant
            k <= statics@.len(),
            bitmap@.len() == 256,
            highest@.len() == 64,
            (bitmap@, highest@) == statics_paint(start, statics@.subrange(0, k as int), table),
            table == match colors {
                Some(c) => Some(c@),
                None => None::<Seq<Rgba>>,
            },
        decreases statics@.len() - k,
    {
        proof {
            let pre = statics@.subrange(0, k + 1);
            assert(pre.drop_last() =~= statics@.subrange(0, k as int));
        }
        let s = statics[k];
        if s.x < 8 && s.y < 8 {
            let t = s.x as usize + s.y as usize * 8;
            if highest[t] < s.altitude {
                let c = match colors {
                    Some(tab) => color_at(tab, s.object_id as usize + STATIC_COLOR_BASE as usize),
                    None => (0, 0, 0, 0),
                };
                set_pixel(bitmap, t, c);
                highest.set(t, s.altitude);
            }
        }
        k = k + 1;
    }
    assert(statics@.subrange(0, statics@.len() as int) =~= statics@);
}

/// Paints the radar colours of the terrain, then those of the highest statics over them.
pub fn draw_full_block(
    bitmap: &mut Vec<u8>,
    block: &Block,
    statics: &Vec<StaticLocation>,
    colors: &Vec<Rgba>,
)
    requires
        old(bitmap)@.len() == BITMAP_BYTES,
        block.wf(),
    ensures
        final(bitmap)@ == statics_paint(radar_bitmap(block@, colors@), statics@, Some(colors@)).0,
{
    draw_radarcol_block(bitmap, block, colors);
    draw_statics_block(bitmap, statics, Some(colors));
}

/// How the map page paints its blocks.
#[derive(Clone, Copy, Debug, PartialEq, Eq, Structural)]
pub enum MapMode {
    HeightMap,
    RadarMap,
    StaticsMap,
    FullMap,
}

/// A key pressed in the map view; `Mode(n)` is the digit key `n`.
#[derive(Clone, Copy, Debug, PartialEq, Eq, Structural)]
pub enum MapKey {
    Escape,
    Left,
    Right,
    Up,
    Down,
    Mode(u8),
    Tab,
    Other,
}

/// What the map view has to do after a key.
#[derive(Clone, Copy, Debug, PartialEq, Eq, Structural)]
pub enum MapAction {
    /// Nothing changed on screen.
    Nothing,
    /// The page has to be painted again.
    Redraw,
    /// The facet changed: load it, then paint the page again.
    SwitchFacet,
}

/// Where the map view stands: the block at the page's top-left corner, the facet, the
/// paint mode, and whether the view was asked to close.
#[derive(Clone, Copy, Debug, PartialEq, Eq, Structural)]
pub struct MapView {
    pub x: u32,
    pub y: u32,
    pub map_id: u8,
    pub mode: MapMode,
    pub exiting: bool,
}

/// The paint mode that digit key `n` selects.
pub open spec fn mode_of_digit(n: u8) -> Option<MapMode> {
    if n == 1 {
        Some(MapMode::HeightMap)
    } else if n == 2 {
        Some(MapMode::RadarMap)
    } else if n == 3 {
        Some(MapMode::StaticsMap)
    } else if n == 4 {
        Some(MapMode::FullMap)
    } else {
        None
    }
}

/// The map view after `key`, and what has to be done.
pub open spec fn after_map_key(v: MapView, key: MapKey) -> (MapView, MapAction) {
    match key {
        MapKey::Escape => (MapView { exiting: true, ..v }, MapAction::Nothing),
        MapKey::Left => if v.x >= MAP_STEP_X {
            (MapView { x: (v.x - MAP_STEP_X) as u32, ..v }, MapAction::Redraw)
        } else {
            (v, MapAction::Nothing)
        },
        MapKey::Right => if v.x + MAP_STEP_X <= MAP_MAX_ORIGIN {
            (MapView { x: (v.x + MAP_STEP_X) as u32, ..v }, MapAction::Redraw)
        } else {
            (v, MapAction::Nothing)
        },
        MapKey::Up => if v.y >= MAP_STEP_Y {
            (MapView { y: (v.y - MAP_STEP_Y) as u32, ..v }, MapAction::Redraw)
        } else {
            (v, MapAction::Nothing)
        },
        MapKey::Down => if v.y + MAP_STEP_Y <= MAP_MAX_ORIGIN {
            (MapView { y: (v.y + MAP_STEP_Y) as u32, ..v }, MapAction::Redraw)
        } else {
            (v, MapAction::Nothing)
        },
        MapKey::Mode(n) => match mode_of_digit(n) {
            Some(m) => (MapView { mode: m, ..v }, MapAction::Redraw),
            None => (v, MapAction::Nothing),
        },
        MapKey::Tab => (
            MapView {
                mode: MapMode::HeightMap,
                map_id: ((v.map_id + 1) % (FACET_COUNT as int)) as u8,
                ..v
            },
            MapAction::SwitchFacet,
        ),
        MapKey::Other => (v, MapAction::Nothing),
    }
}

/// The bitmap of a block in paint mode `mode`: terrain by radar colour, or by the colour
/// table of the graphics where no radar table was loaded; statics by radar colour.
pub open spec fn mode_bitmap(
    mode: MapMode,
    cells: Seq<Cell>,
    statics: Seq<StaticLocation>,
    radar: Option<Seq<Rgba>>,
    graphic_colors: Seq<Rgba>,
) -> Seq<u8> {
    let terrain = match radar {
        Some(t) => t,
        None => graphic_colors,
    };
    match mode {
        MapMode::HeightMap => heightmap_bitmap(cells),
        MapMode::RadarMap => radar_bitmap(cells, terrain),
        MapMode::StaticsMap => statics_paint(Seq::new(256, |j: int| 0u8), statics, radar).0,
        MapMode::FullMap => statics_paint(radar_bitmap(cells, terrain), statics, radar).0,
    }
}

impl MapView {
    pub open spec fn wf(&self) -> bool {
        self.x <= MAP_MAX_ORIGIN && self.y <= MAP_MAX_ORIGIN && self.map_id < FACET_COUNT
    }

    /// The view first shown: the first facet's north-west corner as a height map.
    pub fn new() -> (r: MapView)
        ensures
            r.wf(),
            r == (MapView { x: 0, y: 0, map_id: 0, mode: MapMode::HeightMap, exiting: false }),
    {
        MapView { x: 0, y: 0, map_id: 0, mode: MapMode::HeightMap, exiting: false }
    }

    /// Pans, changes paint mode, switches facet or asks to close.
    pub fn key_down_event(&mut self, key: MapKey) -> (r: MapAction)
        requires
            old(self).wf(),
        ensures
            final(self).wf(),
            (*final(self), r) == after_map_key(*old(self), key),
    {
        match key {
            MapKey::Escape => {
                self.exiting = true;
                MapAction::Nothing
            },
            MapKey::Left => if self.x >= MAP_STEP_X {
                self.x = self.x - MAP_STEP_X;
                MapAction::Redraw
            } else {
                MapAction::Nothing
            },
            MapKey::Right => if self.x <= MAP_MAX_ORIGIN - MAP_STEP_X {
                self.x = self.x + MAP_STEP_X;
                MapAction::Redraw
            } else {
                MapAction::Nothing
            },
            MapKey::Up => if self.y >= MAP_STEP_Y {
                self.y = self.y - MAP_STEP_Y;
                MapAction::Redraw
            } else {
                MapAction::Nothing
            },
            MapKey::Down => if self.y <= MAP_MAX_ORIGIN - MAP_STEP_Y {
                self.y = self.y + MAP_STEP_Y;
                MapAction::Redraw
            } else {
                MapAction::Nothing
            },
            MapKey::Mode(n) => {
                let m = if n == 1 {
                    MapMode::HeightMap
                } else if n == 2 {
                    MapMode::RadarMap
                } else if n == 3 {
                    MapMode::StaticsMap
                } else if n == 4 {
                    MapMode::FullMap
                } else {
                    return MapAction::Nothing;
                };
                self.mode = m;
                MapAction::Redraw
            },
            MapKey::Tab => {
                self.mode = MapMode::HeightMap;
                self.map_id = (self.map_id + 1) % FACET_COUNT;
                MapAction::SwitchFacet
            },
            MapKey::Other => MapAction::Nothing,
        }
    }

    /// Closes the view once it was asked to.
    pub fn update(&self) -> (r: Option<SceneChangeEvent<SceneName>>)
        ensures
            r == if self.exiting {
                Some(SceneChangeEvent::<SceneName>::PopScene)
            } else {
                None
            },
    {
        if self.exiting {
            Some(SceneChangeEvent::PopScene)
        } else {
            None
        }
    }

    /// The bitmap of one block in the view's paint mode.
    pub fn block_bitmap(
        &self,
        block: &Block,
        statics: &Vec<StaticLocation>,
        radar: Option<&Vec<Rgba>>,
        graphic_colors: &Vec<Rgba>,
    ) -> (r: Vec<u8>)
        requires
            block.wf(),
        ensures
            r@ == mode_bitmap(
                self.mode,
                block@,
                statics@,
                match radar {
                    Some(c) => Some(c@),
                    None => None,
                },
                graphic_colors@,
            ),
    {
        let mut bitmap: Vec<u8> = Vec::new();
        let mut i: usize = 0;
        while i < BITMAP_BYTES
            invariant
                i <= BITMAP_BYTES,
                bitmap@ == Seq::new(i as nat, |j: int| 0u8),
            decreases BITMAP_BYTES - i,
        {
            bitmap.push(0);
            i = i + 1;
            assert(bitmap@ =~= Seq::new(i as nat, |j: int| 0u8));
        }
        let terrain = match radar {
            Some(t) => t,
            None => graphic_colors,
        };
        match self.mode {
            MapMode::HeightMap => draw_heightmap_block(&mut bitmap, block),
            MapMode::RadarMap => draw_radarcol_block(&mut bitmap, block, terrain),
            MapMode::StaticsMap => draw_statics_block(&mut bitmap, statics, radar),
            MapMode::FullMap => {
                draw_radarcol_block(&mut bitmap, block, terrain);
                draw_statics_block(&mut bitmap, statics, radar);
            },
        }
        bitmap
    }
}

/// `k` is the key of a terrain patch or of a statics patch.
pub open spec fn is_patch_key(map_keys: Seq<u32>, static_keys: Seq<u32>, k: u32) -> bool {
    map_keys.contains(k) || static_keys.contains(k)
}

fn scan_next(keys: &Vec<u32>, current: u32, best: Option<u32>) -> (r: Option<u32>)
    requires
        best matches Some(b) ==> b > current,
    ensures
        r matches Some(b) ==> b > current && (keys@.contains(b) || best == Some(b)),
        forall|k: u32| keys@.contains(k) && k > current ==> (r matches Some(b) && b <= k),
        best matches Some(b0) ==> (r matches Some(b) && b <= b0),
{
    let mut out = best;
    let mut i: usize = 0;
    while i < keys.len()
        invariant
            i <= keys@.len(),
            best matches Some(b) ==> b > current,
            out matches Some(b) ==> b > current && (keys@.contains(b) || best == Some(b)),
            forall|j: int| 0 <= j < i && keys@[j] > current ==> (out matches Some(b) && b <= keys@[j]),
            best matches Some(b0) ==> (out matches Some(b) && b <= b0),
        decreases keys@.len() - i,
    {
        let k = keys[i];
        if k > current {
            match out {
                Some(b) => if k < b {
                    out = Some(k);
                },
                None => {
                    out = Some(k);
                },
            }
        }
        i = i + 1;
    }
    out
}

fn scan_last(keys: &Vec<u32>, current: u32, best: Option<u32>) -> (r: Option<u32>)
    requires
        best matches Some(b) ==> b < current,
    ensures
        r matches Some(b) ==> b < current && (keys@.contains(b) || best == Some(b)),
        forall|k: u32| keys@.contains(k) && k < current ==> (r matches Some(b) && b >= k),
        best matches Some(b0) ==> (r matches Some(b) && b >= b0),
{
    let mut out = best;
    let mut i: usize = 0;
    while i < keys.len()
        invariant
            i <= keys@.len(),
            best matches Some(b) ==> b < current,
            out matches Some(b) ==> b < current && (keys@.contains(b) || best == Some(b)),
            forall|j: int| 0 <= j < i && keys@[j] < current ==> (out matches Some(b) && b >= keys@[j]),
            best matches Some(b0) ==> (out matches Some(b) && b >= b0),
        decreases keys@.len() - i,
    {
        let k = keys[i];
        if k < current {
            match out {
                Some(b) => if k > b {
                    out = Some(k);
                },
                None => {
                    out = Some(k);
                },
            }
        }
        i = i + 1;
    }
    out
}

/// The first patch after `current` among the terrain and statics patches, or `current`
/// where none follows it.
pub fn get_next_patch(map_keys: &Vec<u32>, static_keys: &Vec<u32>, current: u32) -> (r: u32)
    ensures
        r == current || (r > current && is_patch_key(map_keys@, static_keys@, r)),
        forall|k: u32| is_patch_key(map_keys@, static_keys@, k) && k > current ==> r > current && r <= k,
{
    let a = scan_next(map_keys, current, None);
    let b = scan_next(static_keys, current, a);
    match b {
        Some(k) => k,
        None => current,
    }
}

/// The last patch before `current` among the terrain and statics patches, or `current`
/// where none precedes it.
pub fn get_last_patch(map_keys: &Vec<u32>, static_keys: &Vec<u32>, current: u32) -> (r: u32)
    ensures
        r == current || (r < current && is_patch_key(map_keys@, static_keys@, r)),
        forall|k: u32| is_patch_key(map_keys@, static_keys@, k) && k < current ==> r < current && r >= k,
{
    let a = scan_last(map_keys, current, None);
    let b = scan_last(static_keys, current, a);
    match b {
        Some(k) => k,
        None => current,
    }
}

} // verus!
