use rust_osm_renderer::data::types::Tile;
use rust_osm_renderer::projection::{get_tiles_for_bounding_box, tiles_in_range, TileRange};

#[test]
fn range_is_walked_column_by_column() {
    let range = TileRange { z: 4, min_x: 3, min_y: 5, max_x: 5, max_y: 6 };
    assert_eq!(
        tiles_in_range(&range),
        vec![
            Tile::new(3, 5, 4),
            Tile::new(3, 6, 4),
            Tile::new(4, 5, 4),
            Tile::new(4, 6, 4),
            Tile::new(5, 5, 4),
            Tile::new(5, 6, 4),
        ]
    );
}

#[test]
fn zoom_zero_is_the_one_tile() {
    let range = TileRange { z: 0, min_x: 0, min_y: 0, max_x: 0, max_y: 0 };
    assert_eq!(tiles_in_range(&range), vec![Tile::new(0, 0, 0)]);
    assert_eq!(get_tiles_for_bounding_box(&[range]), vec![Tile::new(0, 0, 0)]);
}

#[test]
fn corners_the_wrong_way_round_give_nothing() {
    assert_eq!(tiles_in_range(&TileRange { z: 3, min_x: 4, min_y: 0, max_x: 3, max_y: 7 }), vec![]);
    assert_eq!(tiles_in_range(&TileRange { z: 3, min_x: 0, min_y: 2, max_x: 7, max_y: 1 }), vec![]);
}

#[test]
fn range_at_the_edge_of_the_numbers_ends() {
    let range =
        TileRange { z: 32, min_x: u32::MAX - 1, min_y: u32::MAX, max_x: u32::MAX, max_y: u32::MAX };
    assert_eq!(
        tiles_in_range(&range),
        vec![Tile::new(u32::MAX - 1, u32::MAX, 32), Tile::new(u32::MAX, u32::MAX, 32)]
    );
}

#[test]
fn zoom_levels_follow_each_other() {
    let ranges = [
        TileRange { z: 0, min_x: 0, min_y: 0, max_x: 0, max_y: 0 },
        TileRange { z: 1, min_x: 0, min_y: 0, max_x: 1, max_y: 0 },
        TileRange { z: 2, min_x: 3, min_y: 3, max_x: 2, max_y: 3 },
        TileRange { z: 3, min_x: 7, min_y: 6, max_x: 7, max_y: 7 },
    ];
    assert_eq!(
        get_tiles_for_bounding_box(&ranges),
        vec![
            Tile::new(0, 0, 0),
            Tile::new(0, 0, 1),
            Tile::new(1, 0, 1),
            Tile::new(7, 6, 3),
            Tile::new(7, 7, 3),
        ]
    );
    assert_eq!(get_tiles_for_bounding_box(&[]), vec![]);
}

#[test]
fn whole_world_at_zoom_zero_is_the_one_tile() {
    // The east border of the world projects to column 1 at zoom 0.
    let range = TileRange { z: 0, min_x: 0, min_y: 0, max_x: 1, max_y: 0 };
    assert_eq!(get_tiles_for_bounding_box(&[range]), vec![Tile::new(0, 0, 0)]);
    let range = TileRange { z: 0, min_x: 1, min_y: 0, max_x: 1, max_y: 7 };
    assert_eq!(tiles_in_range(&range), vec![Tile::new(0, 0, 0)]);
    let range = TileRange { z: 0, min_x: 0, min_y: 0, max_x: u32::MAX, max_y: u32::MAX };
    assert_eq!(tiles_in_range(&range), vec![Tile::new(0, 0, 0)]);
}

#[test]
fn range_is_cut_at_the_edge_of_the_grid() {
    let range = TileRange { z: 2, min_x: 2, min_y: 3, max_x: 4, max_y: 9 };
    assert_eq!(tiles_in_range(&range), vec![Tile::new(2, 3, 2), Tile::new(3, 3, 2)]);
    let range = TileRange { z: 2, min_x: 4, min_y: 0, max_x: 4, max_y: 1 };
    assert_eq!(tiles_in_range(&range), vec![Tile::new(3, 0, 2), Tile::new(3, 1, 2)]);
    let range = TileRange { z: 31, min_x: u32::MAX, min_y: 5, max_x: u32::MAX, max_y: 5 };
    assert_eq!(tiles_in_range(&range), vec![Tile::new(0x7fff_ffff, 5, 31)]);
    // Corners the wrong way round stay so.
    let range = TileRange { z: 2, min_x: 9, min_y: 0, max_x: 5, max_y: 1 };
    assert_eq!(tiles_in_range(&range), vec![]);
}

#[test]
fn every_tile_lies_in_its_grid() {
    let ranges = [
        TileRange { z: 0, min_x: 0, min_y: 0, max_x: 9, max_y: 9 },
        TileRange { z: 1, min_x: 0, min_y: 1, max_x: 9, max_y: 9 },
        TileRange { z: 3, min_x: 6, min_y: 6, max_x: 9, max_y: 9 },
    ];
    let tiles = get_tiles_for_bounding_box(&ranges);
    assert_eq!(tiles.len(), 1 + 2 + 4);
    assert!(tiles.iter().all(|tile| tile.is_valid()));
}
