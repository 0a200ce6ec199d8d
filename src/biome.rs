use vstd::prelude::*;

verus! {

/// The terrain class of a tile; it selects the texture atlas a tile is drawn with.
#[derive(Debug, Clone, Copy, PartialEq, Eq, Structural)]
pub enum Biome {
    Grassland,
    Desert,
    Rockland,
}

} // verus!
