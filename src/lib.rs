//! Map-facet decoding and composition for a viewer of a legacy MMO's client data:
//! a block store with lazily derived corner altitudes, a sliding lens over it, and
//! a composer that turns one block into a depth-sorted isometric draw list.

pub mod altitude;
pub mod art;
pub mod asset_cache;
pub mod block;
pub mod compose;
pub mod facet_cache;
pub mod lens;
pub mod map_view;
pub mod render;
pub mod scene;
pub mod world;
