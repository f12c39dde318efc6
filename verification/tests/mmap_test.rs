use rust_osm_renderer::data::mmap::MappedData;
use rust_osm_renderer::data::serialization::{write_map_object, ReadError};
use rust_osm_renderer::data::types::{BoundingBox, MapObject, Point};

fn point(lon: f64, lat: f64) -> Point {
    Point::new(lon.to_bits(), lat.to_bits())
}

#[test]
fn test_mmap_read() {
    let mut store: Vec<u8> = Vec::new();

    let obj1 = MapObject {
        bounding_box: BoundingBox { min: point(10.0, 20.0), max: point(30.0, 40.0) },
        points: vec![point(15.0, 25.0), point(20.0, 30.0)],
    };

    let obj2 = MapObject {
        bounding_box: BoundingBox { min: point(50.0, 60.0), max: point(70.0, 80.0) },
        points: vec![point(55.0, 65.0), point(60.0, 70.0), point(65.0, 75.0)],
    };

    let offset1 = write_map_object(&mut store, &obj1);
    let offset2 = write_map_object(&mut store, &obj2);

    let mmap_data = MappedData::new(&store);

    let view1 = mmap_data.read_map_object(offset1).unwrap();
    assert_eq!(f64::from_bits(view1.bbox.min.lon), 10.0);
    assert_eq!(f64::from_bits(view1.bbox.min.lat), 20.0);
    assert_eq!(f64::from_bits(view1.bbox.max.lon), 30.0);
    assert_eq!(f64::from_bits(view1.bbox.max.lat), 40.0);
    assert_eq!(view1.num_points(), 2);
    assert_eq!(f64::from_bits(view1.points()[0].lon), 15.0);
    assert_eq!(f64::from_bits(view1.points()[0].lat), 25.0);

    let view2 = mmap_data.read_map_object(offset2).unwrap();
    assert_eq!(f64::from_bits(view2.bbox.min.lon), 50.0);
    assert_eq!(f64::from_bits(view2.bbox.min.lat), 60.0);
    assert_eq!(view2.num_points(), 3);
    assert_eq!(f64::from_bits(view2.points()[1].lon), 60.0);
    assert_eq!(f64::from_bits(view2.points()[1].lat), 70.0);
}

#[test]
fn view_reads_each_point_in_place() {
    let mut store: Vec<u8> = vec![0xaa; 5];
    let obj = MapObject {
        bounding_box: BoundingBox { min: point(-1.0, -2.0), max: point(3.0, 4.0) },
        points: vec![point(-1.0, 4.0), point(0.0, 0.0), point(3.0, -2.0)],
    };
    let offset = write_map_object(&mut store, &obj);
    assert_eq!(offset, 5);
    store.extend_from_slice(&[0xbb; 9]);

    let mapped = MappedData::new(&store);
    assert_eq!(mapped.len(), 5 + 88 + 9);
    assert!(!mapped.is_empty());
    let view = mapped.read_map_object(offset).unwrap();
    assert_eq!(*view.bounding_box(), obj.bounding_box);
    assert_eq!(view.num_points(), 3);
    assert_eq!(view.point(0), obj.points[0]);
    assert_eq!(view.point(1), obj.points[1]);
    assert_eq!(view.point(2), obj.points[2]);
    assert_eq!(view.points(), obj.points);
}

#[test]
fn view_is_refused_where_the_object_does_not_fit() {
    let mut store: Vec<u8> = Vec::new();
    let obj = MapObject {
        bounding_box: BoundingBox { min: point(10.0, 20.0), max: point(30.0, 40.0) },
        points: vec![point(15.0, 25.0)],
    };
    write_map_object(&mut store, &obj);
    let cut = &store[..55];
    let mapped = MappedData::new(cut);
    assert_eq!(mapped.read_map_object(0).err(), Some(ReadError::UnexpectedEof));
    assert_eq!(mapped.read_map_object(56).err(), Some(ReadError::UnexpectedEof));

    let empty = MappedData::new(&[]);
    assert!(empty.is_empty());
    assert_eq!(empty.len(), 0);
    assert_eq!(empty.read_map_object(0).err(), Some(ReadError::UnexpectedEof));

    let mut negative: Vec<u8> = vec![0; 40];
    negative[39] = 0x80;
    let mapped = MappedData::new(&negative);
    assert_eq!(mapped.read_map_object(0).err(), Some(ReadError::NegativePointCount));
}
