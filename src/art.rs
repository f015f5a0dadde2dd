use vstd::prelude::*;
use crate::asset_cache::{AssetCache, AssetLookup, known, lookup_of};

verus! {

/// Tiledata flag of a static drawn behind the other statics at its height.
pub const BACKGROUND_FLAG: u32 = 0x1;

/// Tiledata of a terrain graphic: its flags and the texture used when it is drawn sloped.
#[derive(Clone, Copy, Debug, PartialEq, Eq, Structural)]
pub struct MapTileData {
    pub flags: u32,
    pub texture_id: u16,
}

/// Tiledata of a static graphic.
#[derive(Clone, Copy, Debug, PartialEq, Eq, Structural)]
pub struct StaticTileData {
    pub flags: u32,
}

impl StaticTileData {
    pub open spec fn spec_is_background(self) -> bool {
        self.flags & BACKGROUND_FLAG != 0
    }

    /// The static is a background decoration.
    #[verifier::when_used_as_spec(spec_is_background)]
    pub fn is_background(self) -> (r: bool)
        ensures
            r == self.spec_is_background(),
    {
        self.flags & BACKGROUND_FLAG != 0
    }
}

/// What the composer needs of a decoded static image: its height in pixels and its tiledata.
#[derive(Clone, Copy, Debug, PartialEq, Eq, Structural)]
pub struct StaticArt {
    pub image_height: u16,
    pub tiledata: StaticTileData,
}

/// Size in pixels of a decoded texture map.
#[derive(Clone, Copy, Debug, PartialEq, Eq, Structural)]
pub struct TexMapInfo {
    pub width: u16,
    pub height: u16,
}

/// Cache of decoded terrain and static art, by graphic id.
pub struct ArtCache {
    pub tiles: AssetCache<MapTileData>,
    pub statics: AssetCache<StaticArt>,
}

impl ArtCache {
    pub fn new() -> (r: ArtCache)
        ensures
            r.tiles@ == Map::<u32, Option<MapTileData>>::empty(),
            r.statics@ == Map::<u32, Option<StaticArt>>::empty(),
    {
        ArtCache { tiles: AssetCache::new(), statics: AssetCache::new() }
    }

    /// What is known of terrain graphic `id`.
    pub fn read_tile(&self, id: u32) -> (r: AssetLookup<MapTileData>)
        ensures
            r == lookup_of(self.tiles@, id),
    {
        self.tiles.lookup(id)
    }

    /// What is known of static graphic `id`.
    pub fn read_static(&self, id: u32) -> (r: AssetLookup<StaticArt>)
        ensures
            r == lookup_of(self.statics@, id),
    {
        self.statics.lookup(id)
    }
}

/// Cache of decoded texture maps, by texture id.
pub struct TexMapCache {
    pub textures: AssetCache<TexMapInfo>,
}

impl TexMapCache {
    pub fn new() -> (r: TexMapCache)
        ensures
            r.textures@ == Map::<u32, Option<TexMapInfo>>::empty(),
    {
        TexMapCache { textures: AssetCache::new() }
    }

    /// What is known of texture `id`.
    pub fn read_texmap(&self, id: u32) -> (r: AssetLookup<TexMapInfo>)
        ensures
            r == lookup_of(self.textures@, id),
    {
        self.textures.lookup(id)
    }

    /// The texture was decoded and found.
    pub fn has_texmap(&self, id: u32) -> (r: bool)
        ensures
            r == known(self.textures@, id).is_some(),
    {
        self.textures.get(id).is_some()
    }
}

} // verus!
