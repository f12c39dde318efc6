use byteorder::{LittleEndian, ReadBytesExt};
use rust_osm_renderer::data::serialization::{
    map_object_size, read_map_object, write_map_object, ReadError, BOUNDING_BOX_SIZE, POINTS_LEN_SIZE,
    POINT_SIZE,
};
use rust_osm_renderer::data::types::{BoundingBox, MapObject, Point};
use std::io::Cursor;

fn point(lon: f64, lat: f64) -> Point {
    Point::new(lon.to_bits(), lat.to_bits())
}

#[test]
fn test_write_and_read_map_object() {
    let mut store: Vec<u8> = Vec::new();

    let original = MapObject {
        bounding_box: BoundingBox { min: point(10.0, 20.0), max: point(30.0, 40.0) },
        points: vec![point(15.0, 25.0), point(20.0, 30.0), point(25.0, 35.0)],
    };

    let offset = write_map_object(&mut store, &original);
    assert_eq!(offset, 0);

    let read_obj = read_map_object(&store, offset).unwrap();

    assert_eq!(
        f64::from_bits(read_obj.bounding_box.min.lon),
        f64::from_bits(original.bounding_box.min.lon)
    );
    assert_eq!(
        f64::from_bits(read_obj.bounding_box.min.lat),
        f64::from_bits(original.bounding_box.min.lat)
    );
    assert_eq!(
        f64::from_bits(read_obj.bounding_box.max.lon),
        f64::from_bits(original.bounding_box.max.lon)
    );
    assert_eq!(
        f64::from_bits(read_obj.bounding_box.max.lat),
        f64::from_bits(original.bounding_box.max.lat)
    );
    assert_eq!(read_obj.points.len(), original.points.len());
    for (i, point) in read_obj.points.iter().enumerate() {
        assert_eq!(f64::from_bits(point.lon), f64::from_bits(original.points[i].lon));
        assert_eq!(f64::from_bits(point.lat), f64::from_bits(original.points[i].lat));
    }
    assert_eq!(f64::from_bits(read_obj.bounding_box.min.lon), 10.0);
    assert_eq!(f64::from_bits(read_obj.points[2].lat), 35.0);
}

#[test]
fn test_map_object_size() {
    assert_eq!(map_object_size(0), 40); // 32 + 8 + 0
    assert_eq!(map_object_size(1), 56); // 32 + 8 + 16
    assert_eq!(map_object_size(10), 200); // 32 + 8 + 160
}

#[test]
fn test_binary_layout() {
    let mut buffer: Vec<u8> = Vec::new();

    let obj = MapObject {
        bounding_box: BoundingBox { min: point(1.0, 2.0), max: point(3.0, 4.0) },
        points: vec![point(5.0, 6.0)],
    };

    write_map_object(&mut buffer, &obj);

    assert_eq!(buffer.len(), 56); // 32 + 8 + 16

    let mut cursor = Cursor::new(&buffer);
    let min_lon = cursor.read_f64::<LittleEndian>().unwrap();
    let min_lat = cursor.read_f64::<LittleEndian>().unwrap();
    let max_lon = cursor.read_f64::<LittleEndian>().unwrap();
    let max_lat = cursor.read_f64::<LittleEndian>().unwrap();
    let points_len = cursor.read_i64::<LittleEndian>().unwrap();
    let point_lon = cursor.read_f64::<LittleEndian>().unwrap();
    let point_lat = cursor.read_f64::<LittleEndian>().unwrap();

    assert_eq!(min_lon, 1.0);
    assert_eq!(min_lat, 2.0);
    assert_eq!(max_lon, 3.0);
    assert_eq!(max_lat, 4.0);
    assert_eq!(points_len, 1);
    assert_eq!(point_lon, 5.0);
    assert_eq!(point_lat, 6.0);
}

#[test]
fn bytes_are_little_endian() {
    let mut buffer: Vec<u8> = Vec::new();
    let obj = MapObject {
        bounding_box: BoundingBox {
            min: Point::new(0x0807060504030201, 0x1817161514131211),
            max: Point::new(0, u64::MAX),
        },
        points: vec![Point::new(1, 0x0100000000000000), Point::new(2, 3)],
    };
    write_map_object(&mut buffer, &obj);
    let mut expected: Vec<u8> = vec![1, 2, 3, 4, 5, 6, 7, 8, 0x11, 0x12, 0x13, 0x14, 0x15, 0x16, 0x17, 0x18];
    expected.extend_from_slice(&[0; 8]);
    expected.extend_from_slice(&[0xff; 8]);
    expected.extend_from_slice(&[2, 0, 0, 0, 0, 0, 0, 0]);
    expected.extend_from_slice(&[1, 0, 0, 0, 0, 0, 0, 0]);
    expected.extend_from_slice(&[0, 0, 0, 0, 0, 0, 0, 1]);
    expected.extend_from_slice(&[2, 0, 0, 0, 0, 0, 0, 0]);
    expected.extend_from_slice(&[3, 0, 0, 0, 0, 0, 0, 0]);
    assert_eq!(buffer, expected);

    let back = read_map_object(&buffer, 0).unwrap();
    assert_eq!(back.bounding_box, obj.bounding_box);
    assert_eq!(back.points, obj.points);
}

#[test]
fn size_is_the_sum_of_the_parts() {
    assert_eq!(BOUNDING_BOX_SIZE, 32);
    assert_eq!(POINTS_LEN_SIZE, 8);
    assert_eq!(POINT_SIZE, 16);
    for n in [0usize, 1, 2, 10, 1000] {
        let obj = MapObject {
            bounding_box: BoundingBox { min: point(0.0, 0.0), max: point(1.0, 1.0) },
            points: vec![point(0.5, 0.5); n],
        };
        let mut buffer: Vec<u8> = Vec::new();
        write_map_object(&mut buffer, &obj);
        assert_eq!(buffer.len(), map_object_size(n));
        assert_eq!(buffer.len(), 32 + 8 + 16 * n);
    }
}

#[test]
fn offsets_grow_with_each_object() {
    let mut store: Vec<u8> = Vec::new();
    let first = MapObject {
        bounding_box: BoundingBox { min: point(10.0, 20.0), max: point(30.0, 40.0) },
        points: vec![point(15.0, 25.0), point(20.0, 30.0)],
    };
    let second = MapObject {
        bounding_box: BoundingBox { min: point(50.0, 60.0), max: point(70.0, 80.0) },
        points: vec![],
    };
    let third = MapObject {
        bounding_box: BoundingBox { min: point(-1.0, -2.0), max: point(-0.5, 8.0) },
        points: vec![point(-0.75, 3.0)],
    };
    assert_eq!(write_map_object(&mut store, &first), 0);
    assert_eq!(write_map_object(&mut store, &second), 72);
    assert_eq!(write_map_object(&mut store, &third), 112);
    assert_eq!(store.len(), 168);

    let back = read_map_object(&store, 72).unwrap();
    assert_eq!(back.bounding_box, second.bounding_box);
    assert!(back.points.is_empty());
    let back = read_map_object(&store, 112).unwrap();
    assert_eq!(back.bounding_box, third.bounding_box);
    assert_eq!(back.points, third.points);
    let back = read_map_object(&store, 0).unwrap();
    assert_eq!(back.points, first.points);
}

#[test]
fn reading_past_the_end_is_an_error() {
    let mut store: Vec<u8> = Vec::new();
    let obj = MapObject {
        bounding_box: BoundingBox { min: point(10.0, 20.0), max: point(30.0, 40.0) },
        points: vec![point(15.0, 25.0), point(20.0, 30.0)],
    };
    write_map_object(&mut store, &obj);
    assert_eq!(store.len(), 72);

    assert_eq!(read_map_object(&store, 72).err(), Some(ReadError::UnexpectedEof));
    assert_eq!(read_map_object(&store, 73).err(), Some(ReadError::UnexpectedEof));
    assert_eq!(read_map_object(&store, 33).err(), Some(ReadError::UnexpectedEof));
    assert_eq!(read_map_object(&store, u64::MAX).err(), Some(ReadError::UnexpectedEof));
    assert_eq!(read_map_object(&[], 0).err(), Some(ReadError::UnexpectedEof));
    // The header is whole but a point is cut short.
    assert_eq!(read_map_object(&store[..71], 0).err(), Some(ReadError::UnexpectedEof));
    assert_eq!(read_map_object(&store[..40], 0).err(), Some(ReadError::UnexpectedEof));
    assert!(read_map_object(&store[..72], 0).is_ok());
}

#[test]
fn negative_count_is_an_error() {
    let mut store: Vec<u8> = vec![0; 40];
    store[39] = 0x80;
    assert_eq!(read_map_object(&store, 0).err(), Some(ReadError::NegativePointCount));
    for b in store[32..40].iter_mut() {
        *b = 0xff;
    }
    assert_eq!(read_map_object(&store, 0).err(), Some(ReadError::NegativePointCount));
    // The largest count is no negative one, but its points are not there.
    store[39] = 0x7f;
    assert_eq!(read_map_object(&store, 0).err(), Some(ReadError::UnexpectedEof));
}
