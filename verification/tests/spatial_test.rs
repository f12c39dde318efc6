use rust_osm_renderer::data::spatial::{TileIndex, MAX_INDEXED_ZOOM};
use rust_osm_renderer::data::types::Tile;

#[test]
fn test_tile_index_insert_and_get() {
    let mut index = TileIndex::new();
    let tile = Tile::new(0, 0, 0);

    index.insert(tile, 100);
    index.insert(tile, 200);

    let offsets = index.get(&tile).unwrap();
    assert_eq!(offsets.len(), 2);
    assert_eq!(offsets[0], 100);
    assert_eq!(offsets[1], 200);
}

#[test]
fn test_tile_index_max_points() {
    let mut index = TileIndex::new();
    assert_eq!(index.max_points, 0);

    index.update_max_points(100);
    assert_eq!(index.max_points, 100);

    index.update_max_points(50);
    assert_eq!(index.max_points, 100);

    index.update_max_points(200);
    assert_eq!(index.max_points, 200);
}

#[test]
fn new_index_is_empty() {
    let index = TileIndex::new();
    assert!(index.is_empty());
    assert_eq!(index.len(), 0);
    assert_eq!(index.get(&Tile::new(0, 0, 0)), None);

    let index = TileIndex::with_capacity(16);
    assert!(index.is_empty());
    assert_eq!(index.max_points, 0);

    let index = TileIndex::default();
    assert!(index.is_empty());
}

#[test]
fn tiles_are_kept_apart() {
    let mut index = TileIndex::new();
    index.insert(Tile::new(0, 0, 1), 40);
    index.insert(Tile::new(1, 0, 1), 96);
    index.insert(Tile::new(0, 0, 1), 152);
    assert_eq!(index.len(), 2);
    assert!(!index.is_empty());
    assert_eq!(index.get(&Tile::new(0, 0, 1)), Some(&vec![40, 152]));
    assert_eq!(index.get(&Tile::new(1, 0, 1)), Some(&vec![96]));
    assert_eq!(index.get(&Tile::new(1, 1, 1)), None);
    // The list is kept under the quadtree index of the tile.
    assert_eq!(index.tiles.get(&1), Some(&vec![40, 152]));
    assert_eq!(index.tiles.get(&2), Some(&vec![96]));
}

#[test]
fn tile_without_an_index_has_no_offsets() {
    let mut index = TileIndex::new();
    index.insert(Tile::new(0, 0, 0), 7);
    assert_eq!(index.get(&Tile::new(0, 0, 40)), None);
    assert_eq!(index.get(&Tile::new(u32::MAX, u32::MAX, 32)), None);
}

#[test]
fn deep_tile_is_looked_up_under_its_ancestor() {
    assert_eq!(MAX_INDEXED_ZOOM, 15);
    let mut index = TileIndex::new();
    index.insert(Tile::new(25, 50, 15), 1000);
    index.insert(Tile::new(100, 200, 17), 2000);

    assert_eq!(index.lookup(&Tile::new(100, 200, 17)), Some(&vec![1000]));
    assert_eq!(index.lookup(&Tile::new(103, 203, 17)), Some(&vec![1000]));
    assert_eq!(index.lookup(&Tile::new(104, 200, 17)), None);
    assert_eq!(index.lookup(&Tile::new(25, 50, 15)), Some(&vec![1000]));
    assert_eq!(index.lookup(&Tile::new(12, 25, 14)), None);
    assert_eq!(index.lookup(&Tile::new(0, 0, 60)), None);
    assert_eq!(index.get(&Tile::new(100, 200, 17)), Some(&vec![2000]));
}

#[test]
fn tile_outside_its_grid_has_no_offsets() {
    let mut index = TileIndex::new();
    index.insert(Tile::new(0, 0, 1), 40);
    // Column 1 at zoom 0 would count to the same number as column 0 at zoom 1.
    assert_eq!(Tile::new(1, 0, 0).checked_index(), Tile::new(0, 0, 1).checked_index());
    assert_eq!(index.get(&Tile::new(1, 0, 0)), None);
    assert_eq!(index.lookup(&Tile::new(1, 0, 0)), None);
    assert_eq!(index.get(&Tile::new(0, 0, 1)), Some(&vec![40]));

    index.insert(Tile::new(0, 0, 15), 96);
    assert_eq!(index.lookup(&Tile::new(3, 3, 17)), Some(&vec![96]));
    assert_eq!(index.lookup(&Tile::new(1 << 17, 3, 17)), None);
}
