//! The spatial index: for each tile, the map objects that lie in it.

use std::collections::HashMap;
use vstd::prelude::*;
use crate::data::types::{
    lemma_ancestor_valid_iff, lemma_index_fits_below_zoom_32, MapObjectOffset, Tile,
};

verus! {

broadcast use vstd::std_specs::hash::group_hash_axioms;

/// The key of a tile in the index: its quadtree linear index.
pub type TileKey = u64;

/// The deepest zoom level at which ways are indexed. A deeper tile is served
/// from its ancestor at this level.
pub const MAX_INDEXED_ZOOM: u32 = 15;

/// For each tile the offsets of the map objects in it, in the order in which
/// they were inserted, and the largest number of points of any one object.
pub struct TileIndex {
    pub tiles: HashMap<TileKey, Vec<MapObjectOffset>>,
    pub max_points: usize,
}

impl View for TileIndex {
    type V = Map<TileKey, Seq<MapObjectOffset>>;

    open spec fn view(&self) -> Map<TileKey, Seq<MapObjectOffset>> {
        self.tiles@.map_values(|offsets: Vec<MapObjectOffset>| offsets@)
    }
}

/// The offsets that a map from keys to offset lists holds under `key`: none
/// where the key is absent.
pub open spec fn offsets_under(
    tiles: Map<TileKey, Seq<MapObjectOffset>>,
    key: TileKey,
) -> Seq<MapObjectOffset> {
    if tiles.contains_key(key) {
        tiles[key]
    } else {
        Seq::empty()
    }
}

/// The tile under whose key a request for `tile` is looked up: the tile
/// itself down to the deepest indexed zoom, its ancestor there below that.
pub open spec fn indexed_tile(tile: Tile) -> Tile {
    if tile.z > MAX_INDEXED_ZOOM {
        tile.ancestor_spec(MAX_INDEXED_ZOOM)
    } else {
        tile
    }
}

/// The tile under which a request is looked up has an index of 64 bits, and
/// lies inside its grid exactly when the tile asked for does.
pub proof fn lemma_indexed_tile(tile: Tile)
    ensures
        indexed_tile(tile).index_spec() <= u64::MAX,
        indexed_tile(tile).valid() == tile.valid(),
{
    lemma_index_fits_below_zoom_32(indexed_tile(tile));
    if tile.z > MAX_INDEXED_ZOOM {
        lemma_ancestor_valid_iff(tile, MAX_INDEXED_ZOOM);
    }
}

impl TileIndex {
    /// An index without tiles.
    pub fn new() -> (index: TileIndex)
        ensures
            index@ == Map::<TileKey, Seq<MapObjectOffset>>::empty(),
            index.max_points == 0,
    {
        let index = TileIndex { tiles: HashMap::new(), max_points: 0 };
        assert(index@ =~= Map::<TileKey, Seq<MapObjectOffset>>::empty());
        index
    }

    /// An index without tiles, with room for `capacity` of them.
    pub fn with_capacity(capacity: usize) -> (index: TileIndex)
        ensures
            index@ == Map::<TileKey, Seq<MapObjectOffset>>::empty(),
            index.max_points == 0,
    {
        let index = TileIndex { tiles: HashMap::with_capacity(capacity), max_points: 0 };
        assert(index@ =~= Map::<TileKey, Seq<MapObjectOffset>>::empty());
        index
    }

    /// Appends the offset to the list of the tile, which is created where the
    /// tile has none yet. The tile lies inside the grid of its zoom level, so
    /// that no other tile shares its key.
    pub fn insert(&mut self, tile: Tile, offset: MapObjectOffset)
        requires
            tile.valid(),
            tile.index_spec() <= u64::MAX,
        ensures
            final(self)@ == old(self)@.insert(
                tile.index_spec() as u64,
                offsets_under(old(self)@, tile.index_spec() as u64).push(offset),
            ),
            final(self).max_points == old(self).max_points,
    {
        let key: u64 = tile.index();
        let mut offsets: Vec<MapObjectOffset> = match self.tiles.remove(&key) {
            Some(present) => present,
            None => Vec::new(),
        };
        offsets.push(offset);
        self.tiles.insert(key, offsets);
        assert(self@ =~= old(self)@.insert(key, offsets_under(old(self)@, key).push(offset)));
    }

    /// The offsets of the map objects in the tile, if it has any. A tile
    /// outside the grid of its zoom level has none.
    pub fn get(&self, tile: &Tile) -> (r: Option<&Vec<MapObjectOffset>>)
        ensures
            match r {
                Some(offsets) => tile.valid() && tile.index_spec() <= u64::MAX
                    && self@.contains_key(tile.index_spec() as u64) && offsets@
                    == self@[tile.index_spec() as u64],
                None => !tile.valid() || tile.index_spec() > u64::MAX || !self@.contains_key(
                    tile.index_spec() as u64,
                ),
            },
    {
        if !tile.is_valid() {
            return None;
        }
        match tile.checked_index() {
            Some(key) => self.tiles.get(&key),
            None => None,
        }
    }

    /// The offsets of the map objects to draw for the tile, if there are any:
    /// those of the tile itself down to the deepest indexed zoom, those of its
    /// ancestor there below that. A tile outside the grid of its zoom level
    /// has none.
    pub fn lookup(&self, tile: &Tile) -> (r: Option<&Vec<MapObjectOffset>>)
        ensures
            indexed_tile(*tile).index_spec() <= u64::MAX,
            indexed_tile(*tile).valid() == tile.valid(),
            match r {
                Some(offsets) => tile.valid() && self@.contains_key(
                    indexed_tile(*tile).index_spec() as u64,
                ) && offsets@ == self@[indexed_tile(*tile).index_spec() as u64],
                None => !tile.valid() || !self@.contains_key(
                    indexed_tile(*tile).index_spec() as u64,
                ),
            },
    {
        proof {
            lemma_indexed_tile(*tile);
        }
        if tile.z > MAX_INDEXED_ZOOM {
            match tile.get_ancestor(MAX_INDEXED_ZOOM) {
                Some(ancestor) => self.get(&ancestor),
                None => None,
            }
        } else {
            self.get(tile)
        }
    }

    /// The number of tiles that have map objects.
    pub fn len(&self) -> (n: usize)
        ensures
            n == self@.dom().len(),
    {
        assert(self@.dom() =~= self.tiles@.dom());
        self.tiles.len()
    }

    /// Whether no tile has a map object.
    pub fn is_empty(&self) -> (empty: bool)
        ensures
            empty == (self@.dom().len() == 0),
    {
        assert(self@.dom() =~= self.tiles@.dom());
        self.tiles.len() == 0
    }

    /// Raises the largest number of points to `num_points` where that is more.
    pub fn update_max_points(&mut self, num_points: usize)
        ensures
            final(self).max_points == (if num_points > old(self).max_points {
                num_points
            } else {
                old(self).max_points
            }),
            final(self).tiles == old(self).tiles,
    {
        if num_points > self.max_points {
            self.max_points = num_points;
        }
    }
}

impl Default for TileIndex {
    fn default() -> (index: TileIndex)
        ensures
            index@ == Map::<TileKey, Seq<MapObjectOffset>>::empty(),
            index.max_points == 0,
    {
        TileIndex::new()
    }
}

} // verus!
