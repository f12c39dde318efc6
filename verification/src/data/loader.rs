//! Ingestion: which ways count as major roads, and under which tiles a way
//! is indexed.
//!
//! A way is indexed under every tile that its bounding box reaches, except
//! that a way that is no major road is left out of the zoom levels below 11.

use vstd::prelude::*;
use vstd::string::StringExecFns;
use crate::data::serialization::{object_bytes, write_map_object, MAX_POINTS};
use crate::data::spatial::{offsets_under, TileIndex, TileKey};
use crate::data::types::{MapObject, MapObjectOffset, Tile};

verus! {

/// The first zoom level at which every way is indexed. Below it only major
/// roads are.
pub const MIN_ZOOM_ALL_WAYS: u32 = 11;

/// The value of a `highway` tag is that of a major road.
pub open spec fn is_major_road(value: Seq<char>) -> bool {
    ||| value == "motorway"@
    ||| value == "trunk"@
    ||| value == "primary"@
    ||| value == "secondary"@
    ||| value == "tertiary"@
    ||| value == "motorway_link"@
    ||| value == "trunk_link"@
    ||| value == "primary_link"@
    ||| value == "secondary_link"@
    ||| value == "tertiary_link"@
}

/// The tag marks its way as a major road.
pub open spec fn is_important_tag(tag: (String, String)) -> bool {
    tag.0@ == "highway"@ && is_major_road(tag.1@)
}

/// One of the tags marks the way as a major road.
pub open spec fn is_important(tags: Seq<(String, String)>) -> bool {
    exists|i: int| 0 <= i < tags.len() && is_important_tag(#[trigger] tags[i])
}

/// Whether the way is a major road, and so indexed at the zoom levels below
/// 11 too: it has a `highway` tag whose value is one of `motorway`, `trunk`,
/// `primary`, `secondary`, `tertiary` or one of these followed by `_link`.
pub fn is_important_way(tags: &[(String, String)]) -> (r: bool)
    ensures
        r == is_important(tags@),
{
    let highway: String = String::from_str("highway");
    let roads: [String; 10] = [
        String::from_str("motorway"),
        String::from_str("trunk"),
        String::from_str("primary"),
        String::from_str("secondary"),
        String::from_str("tertiary"),
        String::from_str("motorway_link"),
        String::from_str("trunk_link"),
        String::from_str("primary_link"),
        String::from_str("secondary_link"),
        String::from_str("tertiary_link"),
    ];
    let mut i: usize = 0;
    while i < tags.len()
        invariant
            i <= tags@.len(),
            highway@ == "highway"@,
            roads@.len() == 10,
            roads@[0]@ == "motorway"@,
            roads@[1]@ == "trunk"@,
            roads@[2]@ == "primary"@,
            roads@[3]@ == "secondary"@,
            roads@[4]@ == "tertiary"@,
            roads@[5]@ == "motorway_link"@,
            roads@[6]@ == "trunk_link"@,
            roads@[7]@ == "primary_link"@,
            roads@[8]@ == "secondary_link"@,
            roads@[9]@ == "tertiary_link"@,
            forall|j: int| 0 <= j < i ==> !is_important_tag(#[trigger] tags@[j]),
        decreases tags@.len() - i,
    {
        if tags[i].0 == highway {
            assert forall|j: int| 0 <= j < 10 implies is_major_road((#[trigger] roads@[j])@) by {
                assert(j == 0 || j == 1 || j == 2 || j == 3 || j == 4 || j == 5 || j == 6 || j == 7
                    || j == 8 || j == 9);
            }
            let mut k: usize = 0;
            while k < 10
                invariant
                    k <= 10,
                    i < tags@.len(),
                    tags@[i as int].0@ == "highway"@,
                    roads@.len() == 10,
                    forall|j: int| 0 <= j < 10 ==> is_major_road((#[trigger] roads@[j])@),
                    forall|j: int| 0 <= j < k ==> tags@[i as int].1@ != (#[trigger] roads@[j])@,
                decreases 10 - k,
            {
                if tags[i].1 == roads[k] {
                    assert(is_important_tag(tags@[i as int]));
                    return true;
                }
                k = k + 1;
            }
            assert(!is_major_road(tags@[i as int].1@)) by {
                assert(tags@[i as int].1@ != roads@[0]@);
                assert(tags@[i as int].1@ != roads@[1]@);
                assert(tags@[i as int].1@ != roads@[2]@);
                assert(tags@[i as int].1@ != roads@[3]@);
                assert(tags@[i as int].1@ != roads@[4]@);
                assert(tags@[i as int].1@ != roads@[5]@);
                assert(tags@[i as int].1@ != roads@[6]@);
                assert(tags@[i as int].1@ != roads@[7]@);
                assert(tags@[i as int].1@ != roads@[8]@);
                assert(tags@[i as int].1@ != roads@[9]@);
            }
        }
        i = i + 1;
    }
    false
}

/// A way is indexed under the tile: every way from zoom 11 on, and a major
/// road at every zoom.
pub open spec fn indexed_under(tile: Tile, important: bool) -> bool {
    important || tile.z >= MIN_ZOOM_ALL_WAYS
}

/// The index after a way at `offset` has been indexed under the tiles in
/// turn, each tile that the way is left out of skipped.
pub open spec fn index_with_way(
    index: Map<TileKey, Seq<MapObjectOffset>>,
    tiles: Seq<Tile>,
    offset: MapObjectOffset,
    important: bool,
) -> Map<TileKey, Seq<MapObjectOffset>>
    decreases tiles.len(),
{
    if tiles.len() == 0 {
        index
    } else {
        let before = index_with_way(index, tiles.drop_last(), offset, important);
        let tile = tiles.last();
        if indexed_under(tile, important) {
            before.insert(
                tile.index_spec() as u64,
                offsets_under(before, tile.index_spec() as u64).push(offset),
            )
        } else {
            before
        }
    }
}

/// Indexes the way at `offset` under each of the tiles that its bounding box
/// reaches, leaving a way that is no major road out of the zoom levels below
/// 11. Every tile lies inside the grid of its zoom level.
pub fn index_way(index: &mut TileIndex, tiles: &[Tile], offset: MapObjectOffset, important: bool)
    requires
        forall|i: int| 0 <= i < tiles@.len() ==> (#[trigger] tiles@[i]).valid(),
        forall|i: int| 0 <= i < tiles@.len() ==> (#[trigger] tiles@[i]).index_spec() <= u64::MAX,
    ensures
        final(index)@ == index_with_way(old(index)@, tiles@, offset, important),
        final(index).max_points == old(index).max_points,
{
    let mut i: usize = 0;
    while i < tiles.len()
        invariant
            i <= tiles@.len(),
            forall|i: int| 0 <= i < tiles@.len() ==> (#[trigger] tiles@[i]).valid(),
            forall|i: int|
                0 <= i < tiles@.len() ==> (#[trigger] tiles@[i]).index_spec() <= u64::MAX,
            index@ == index_with_way(old(index)@, tiles@.take(i as int), offset, important),
            index.max_points == old(index).max_points,
        decreases tiles@.len() - i,
    {
        let tile: Tile = tiles[i];
        proof {
            let next = tiles@.take(i + 1);
            assert(next.drop_last() == tiles@.take(i as int));
            assert(next.last() == tile);
        }
        if important || tile.z >= MIN_ZOOM_ALL_WAYS {
            index.insert(tile, offset);
        }
        i = i + 1;
    }
    assert(tiles@.take(i as int) == tiles@);
}

/// Takes a way into the store and the index: counts its points towards the
/// largest number of points, appends it to the store, and indexes it at the
/// offset at which it was written, which is returned. `writer` holds the
/// bytes of the store from `base_offset` on; what lies before has been
/// written out already.
pub fn add_way(
    index: &mut TileIndex,
    writer: &mut Vec<u8>,
    base_offset: MapObjectOffset,
    object: &MapObject,
    tags: &[(String, String)],
    tiles: &[Tile],
) -> (offset: MapObjectOffset)
    requires
        object.points@.len() <= MAX_POINTS,
        base_offset + old(writer)@.len() <= u64::MAX,
        forall|i: int| 0 <= i < tiles@.len() ==> (#[trigger] tiles@[i]).valid(),
        forall|i: int| 0 <= i < tiles@.len() ==> (#[trigger] tiles@[i]).index_spec() <= u64::MAX,
    ensures
        offset == base_offset + old(writer)@.len(),
        final(writer)@ == old(writer)@ + object_bytes(object@),
        final(index)@ == index_with_way(old(index)@, tiles@, offset, is_important(tags@)),
        final(index).max_points == (if object.points@.len() > old(index).max_points {
            object.points@.len() as usize
        } else {
            old(index).max_points
        }),
{
    index.update_max_points(object.points.len());
    let local: MapObjectOffset = write_map_object(writer, object);
    let offset: MapObjectOffset = base_offset + local;
    let important: bool = is_important_way(tags);
    index_way(index, tiles, offset, important);
    offset
}

} // verus!
