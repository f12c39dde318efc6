use image::GenericImageView;
use rust_osm_renderer::encoding::png::{encode_png, encoded};
use rust_osm_renderer::renderer::raster::Raster;

#[test]
fn png_decodes_to_the_raster() {
    let mut pixels: Vec<u8> = Vec::new();
    for i in 0..(3 * 2) {
        pixels.extend_from_slice(&[i as u8 * 40, 255 - i as u8, 7, 255]);
    }
    let raster = Raster::from_raw(3, 2, pixels.clone()).unwrap();
    let png = encode_png(&raster).unwrap();
    assert_eq!(&png[..8], &[0x89, 0x50, 0x4e, 0x47, 0x0d, 0x0a, 0x1a, 0x0a]);
    assert_ne!(png, pixels);

    let decoded = image::load_from_memory(&png).unwrap();
    assert_eq!(decoded.dimensions(), (3, 2));
    assert_eq!(decoded.to_rgba8().into_raw(), pixels);
}

#[test]
fn blank_tile_encodes_to_a_white_image() {
    let png = encode_png(&Raster::blank(256)).unwrap();
    let decoded = image::load_from_memory(&png).unwrap().to_rgba8();
    assert_eq!(decoded.width(), 256);
    assert_eq!(decoded.height(), 256);
    assert!(decoded.pixels().all(|p| p.0 == [255, 255, 255, 255]));
}

#[test]
fn same_raster_gives_the_same_file() {
    let a = encode_png(&Raster::from_raw(2, 2, vec![1; 16]).unwrap()).unwrap();
    let b = encode_png(&Raster::from_raw(2, 2, vec![1; 16]).unwrap()).unwrap();
    let c = encode_png(&Raster::from_raw(2, 2, vec![2; 16]).unwrap()).unwrap();
    assert_eq!(a, b);
    assert_ne!(a, c);
}

#[test]
fn image_without_pixels_is_an_error() {
    let r = encode_png(&Raster::blank(0));
    assert!(r.is_err());
    assert!(!r.err().unwrap().message.is_empty());
}

#[test]
fn answer_of_the_encoder_is_passed_on() {
    assert_eq!(encoded(Ok(vec![1, 2, 3])).unwrap(), vec![1, 2, 3]);
    assert_eq!(encoded(Ok(vec![])).unwrap(), vec![]);

    let failure = image::ImageError::IoError(std::io::Error::new(
        std::io::ErrorKind::Other,
        "disk is full",
    ));
    let error = encoded(Err(failure)).err().unwrap();
    assert!(error.message.contains("disk is full"));
}
