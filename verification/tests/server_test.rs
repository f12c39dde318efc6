use rust_osm_renderer::data::types::Tile;
use rust_osm_renderer::encoding::png::{encode_png, EncodeError};
use rust_osm_renderer::renderer::raster::Raster;
use rust_osm_renderer::renderer::vulkan::VulkanError;
use rust_osm_renderer::server::handlers::{
    parse_tile_name, parse_tile_request, png_response, render_response, TileRequest,
    STATUS_BAD_REQUEST, STATUS_INTERNAL_SERVER_ERROR, STATUS_OK,
};

#[test]
fn tile_name_gives_row_and_size() {
    assert_eq!(parse_tile_name(b"660.png"), Some((660, 256)));
    assert_eq!(parse_tile_name(b"660@2x.png"), Some((660, 512)));
    assert_eq!(parse_tile_name(b"0.png"), Some((0, 256)));
    assert_eq!(parse_tile_name(b"007.png"), Some((7, 256)));
    assert_eq!(parse_tile_name(b"+5.png"), Some((5, 256)));
    assert_eq!(parse_tile_name(b"+5@2x.png"), Some((5, 512)));
    assert_eq!(parse_tile_name(b"4294967295.png"), Some((u32::MAX, 256)));
    assert_eq!(parse_tile_name(b"00004294967295@2x.png"), Some((u32::MAX, 512)));
}

#[test]
fn name_without_png_is_refused() {
    assert_eq!(parse_tile_request(11, 1081, b"660"), Err(400));
    assert_eq!(parse_tile_request(11, 1081, b"660.pn"), Err(STATUS_BAD_REQUEST));
    assert_eq!(parse_tile_request(11, 1081, b"660.PNG"), Err(STATUS_BAD_REQUEST));
    assert_eq!(parse_tile_request(11, 1081, b"660.png "), Err(STATUS_BAD_REQUEST));
    assert_eq!(parse_tile_request(11, 1081, b"660.jpg"), Err(STATUS_BAD_REQUEST));
    assert_eq!(parse_tile_request(11, 1081, b""), Err(STATUS_BAD_REQUEST));
}

#[test]
fn name_without_a_number_is_refused() {
    for name in [
        &b".png"[..],
        b"@2x.png",
        b"abc.png",
        b"12a.png",
        b"-1.png",
        b"+.png",
        b"++1.png",
        b"1+.png",
        b" 1.png",
        b"1 .png",
        b"1.5.png",
        b"4294967296.png",
        b"99999999999999999999999999.png",
        b"660@3x.png",
        b"660@2x@2x.png",
        b"660.png.png",
        b"0x10.png",
        "\u{0661}.png".as_bytes(),
    ] {
        assert_eq!(parse_tile_name(name), None, "{:?}", name);
    }
}

#[test]
fn request_names_the_tile() {
    assert_eq!(
        parse_tile_request(11, 1081, b"660.png"),
        Ok(TileRequest { tile: Tile::new(1081, 660, 11), tile_size: 256 })
    );
    assert_eq!(
        parse_tile_request(0, 0, b"0@2x.png"),
        Ok(TileRequest { tile: Tile::new(0, 0, 0), tile_size: 512 })
    );
}

#[test]
fn encoded_tile_is_sent_as_png() {
    let response = png_response(Ok(vec![1, 2, 3]));
    assert_eq!(response.status, STATUS_OK);
    assert_eq!(response.status, 200);
    assert_eq!(response.body, vec![1, 2, 3]);
    assert_eq!(response.content_type(), Some("image/png"));

    let response = png_response(Err(EncodeError { message: "no".to_string() }));
    assert_eq!(response.status, STATUS_INTERNAL_SERVER_ERROR);
    assert_eq!(response.status, 500);
    assert!(response.body.is_empty());
    assert_eq!(response.content_type(), None);
}

#[test]
fn rendered_tile_is_encoded_and_sent() {
    let raster = Raster::blank(256);
    let expected = encode_png(&raster).unwrap();
    let response = render_response(Ok(raster));
    assert_eq!(response.status, 200);
    assert_eq!(response.body, expected);
    assert_eq!(&response.body[..8], &[0x89, b'P', b'N', b'G', 0x0d, 0x0a, 0x1a, 0x0a]);

    let response = render_response(Err(VulkanError::VkError(-4)));
    assert_eq!(response.status, 500);
    assert!(response.body.is_empty());
}

#[test]
fn raster_without_pixels_is_not_sent() {
    // The encoder refuses an image without pixels.
    let response = render_response(Ok(Raster::blank(0)));
    assert_eq!(response.status, 500);
    assert!(response.body.is_empty());
}
