//! What the tile endpoint `/tile/{z}/{x}/{y}.png` answers.
//!
//! The last segment of the path names the row and the size of the tile:
//! `{y}.png` for a tile of 256 pixels, `{y}@2x.png` for one of 512. The row is
//! a decimal number that fits in 32 bits, with an optional `+` in front.

use vstd::prelude::*;
use vstd::slice::slice_subrange;
use crate::data::types::Tile;
use crate::encoding::png::{encode_png, png_bytes, EncodeError};
use crate::renderer::pipeline::{TILE_SIZE, TILE_SIZE_2X};
use crate::renderer::raster::Raster;
use crate::renderer::vulkan::VulkanError;

verus! {

/// The byte of the character `+`.
pub const ASCII_PLUS: u8 = 0x2b;

/// The byte of the character `.`.
pub const ASCII_DOT: u8 = 0x2e;

/// The byte of the digit `0`.
pub const ASCII_ZERO: u8 = 0x30;

/// The byte of the digit `2`.
pub const ASCII_TWO: u8 = 0x32;

/// The byte of the digit `9`.
pub const ASCII_NINE: u8 = 0x39;

/// The byte of the character `@`.
pub const ASCII_AT: u8 = 0x40;

/// The byte of the letter `g`.
pub const ASCII_G: u8 = 0x67;

/// The byte of the letter `n`.
pub const ASCII_N: u8 = 0x6e;

/// The byte of the letter `p`.
pub const ASCII_P: u8 = 0x70;

/// The byte of the letter `x`.
pub const ASCII_X: u8 = 0x78;

/// The status of an answer that carries a tile.
pub const STATUS_OK: u16 = 200;

/// The status of an answer to a path that names no tile.
pub const STATUS_BAD_REQUEST: u16 = 400;

/// The status of an answer to a request whose tile could not be made.
pub const STATUS_INTERNAL_SERVER_ERROR: u16 = 500;

/// The tile that a request asks for, and its size in pixels.
#[derive(Debug, Clone, Copy, PartialEq, Eq, Structural)]
pub struct TileRequest {
    pub tile: Tile,
    pub tile_size: u32,
}

/// The answer to a request: the status, and the PNG file where the status is
/// `STATUS_OK`.
#[derive(Debug, Clone)]
pub struct TileResponse {
    pub status: u16,
    pub body: Vec<u8>,
}

/// The byte is a decimal digit.
pub open spec fn is_digit(b: u8) -> bool {
    ASCII_ZERO <= b <= ASCII_NINE
}

/// The number that the digits write in base ten.
pub open spec fn decimal_value(digits: Seq<u8>) -> nat
    decreases digits.len(),
{
    if digits.len() == 0 {
        0
    } else {
        (10 * decimal_value(digits.drop_last()) + (digits.last() - ASCII_ZERO)) as nat
    }
}

/// The text without the `+` that may stand in front.
pub open spec fn unsigned_part(text: Seq<u8>) -> Seq<u8> {
    if text.len() > 0 && text[0] == ASCII_PLUS {
        text.drop_first()
    } else {
        text
    }
}

/// The number that the text writes, if it writes one that fits in 32 bits: an
/// optional `+` and then one or more decimal digits, nothing else.
pub open spec fn number_of(text: Seq<u8>) -> Option<u32> {
    let digits = unsigned_part(text);
    if digits.len() > 0 && (forall|i: int| 0 <= i < digits.len() ==> is_digit(#[trigger] digits[i]))
        && decimal_value(digits) <= u32::MAX {
        Some(decimal_value(digits) as u32)
    } else {
        None
    }
}

/// The ending of the name of a tile of 256 pixels.
pub open spec fn png_suffix() -> Seq<u8> {
    seq![ASCII_DOT, ASCII_P, ASCII_N, ASCII_G]
}

/// The ending of the name of a tile of 512 pixels.
pub open spec fn high_resolution_suffix() -> Seq<u8> {
    seq![ASCII_AT, ASCII_TWO, ASCII_X, ASCII_DOT, ASCII_P, ASCII_N, ASCII_G]
}

/// The text ends with the suffix.
pub open spec fn has_suffix(text: Seq<u8>, suffix: Seq<u8>) -> bool {
    text.len() >= suffix.len() && text.subrange(text.len() - suffix.len(), text.len() as int)
        == suffix
}

/// The text without its last `n` bytes.
pub open spec fn without_last(text: Seq<u8>, n: nat) -> Seq<u8> {
    text.subrange(0, text.len() - n)
}

/// The row and the size of the tile that the last segment of the path names,
/// if it names one. A name that ends in `@2x.png` is never read as one that
/// ends in `.png`.
pub open spec fn named_tile(name: Seq<u8>) -> Option<(u32, u32)> {
    if has_suffix(name, high_resolution_suffix()) {
        match number_of(without_last(name, 7)) {
            Some(y) => Some((y, TILE_SIZE_2X)),
            None => None,
        }
    } else if has_suffix(name, png_suffix()) {
        match number_of(without_last(name, 4)) {
            Some(y) => Some((y, TILE_SIZE)),
            None => None,
        }
    } else {
        None
    }
}

/// The digits in front of a number are a smaller number, or the same.
proof fn lemma_decimal_prefix(digits: Seq<u8>, k: int)
    requires
        0 <= k <= digits.len(),
        forall|i: int| 0 <= i < digits.len() ==> is_digit(#[trigger] digits[i]),
    ensures
        decimal_value(digits.take(k)) <= decimal_value(digits),
    decreases digits.len() - k,
{
    if k < digits.len() {
        lemma_decimal_prefix(digits, k + 1);
        let longer = digits.take(k + 1);
        assert(longer.drop_last() == digits.take(k));
        assert(is_digit(digits[k]));
    } else {
        assert(digits.take(k) == digits);
    }
}

/// Reads a number that fits in 32 bits.
fn parse_u32(text: &[u8]) -> (r: Option<u32>)
    ensures
        r == number_of(text@),
{
    let start: usize = if text.len() > 0 && text[0] == ASCII_PLUS {
        1
    } else {
        0
    };
    let digits: &[u8] = slice_subrange(text, start, text.len());
    assert(digits@ == unsigned_part(text@));
    if digits.len() == 0 {
        return None;
    }
    let mut value: u64 = 0;
    let mut i: usize = 0;
    while i < digits.len()
        invariant
            i <= digits@.len(),
            digits@.len() > 0,
            digits@ == unsigned_part(text@),
            forall|j: int| 0 <= j < i ==> is_digit(#[trigger] digits@[j]),
            value == decimal_value(digits@.take(i as int)),
            value <= u32::MAX,
        decreases digits@.len() - i,
    {
        let b: u8 = digits[i];
        if b < ASCII_ZERO || b > ASCII_NINE {
            assert(!is_digit(digits@[i as int]));
            return None;
        }
        proof {
            let longer = digits@.take(i + 1);
            assert(longer.drop_last() == digits@.take(i as int));
            assert(longer.last() == b);
        }
        value = value * 10 + (b - ASCII_ZERO) as u64;
        i = i + 1;
        if value > u32::MAX as u64 {
            proof {
                if forall|j: int| 0 <= j < digits@.len() ==> is_digit(#[trigger] digits@[j]) {
                    lemma_decimal_prefix(digits@, i as int);
                }
            }
            return None;
        }
    }
    assert(digits@.take(i as int) == digits@);
    Some(value as u32)
}

/// Whether the text ends with the suffix.
fn ends_with(text: &[u8], suffix: &[u8]) -> (r: bool)
    ensures
        r == has_suffix(text@, suffix@),
{
    if text.len() < suffix.len() {
        return false;
    }
    let from: usize = text.len() - suffix.len();
    let ghost tail = text@.subrange(from as int, text@.len() as int);
    let mut i: usize = 0;
    while i < suffix.len()
        invariant
            i <= suffix@.len(),
            from + suffix.len() == text.len(),
            tail == text@.subrange(from as int, text@.len() as int),
            forall|j: int| 0 <= j < i ==> tail[j] == suffix@[j],
        decreases suffix@.len() - i,
    {
        if text[from + i] != suffix[i] {
            assert(tail[i as int] != suffix@[i as int]);
            return false;
        }
        i = i + 1;
    }
    assert(tail =~= suffix@);
    true
}

/// The row and the size of the tile that the last segment of the path names.
pub fn parse_tile_name(name: &[u8]) -> (r: Option<(u32, u32)>)
    ensures
        r == named_tile(name@),
{
    let high_resolution: [u8; 7] = [ASCII_AT, ASCII_TWO, ASCII_X, ASCII_DOT, ASCII_P, ASCII_N, ASCII_G];
    let png: [u8; 4] = [ASCII_DOT, ASCII_P, ASCII_N, ASCII_G];
    assert(high_resolution@ =~= high_resolution_suffix());
    assert(png@ =~= png_suffix());
    if ends_with(name, high_resolution.as_slice()) {
        match parse_u32(slice_subrange(name, 0, name.len() - 7)) {
            Some(y) => Some((y, TILE_SIZE_2X)),
            None => None,
        }
    } else if ends_with(name, png.as_slice()) {
        match parse_u32(slice_subrange(name, 0, name.len() - 4)) {
            Some(y) => Some((y, TILE_SIZE)),
            None => None,
        }
    } else {
        None
    }
}

/// The tile that the path `/tile/{z}/{x}/{name}` asks for, or the status of
/// the answer where the name is not that of a tile.
pub fn parse_tile_request(z: u32, x: u32, name: &[u8]) -> (r: Result<TileRequest, u16>)
    ensures
        r == (match named_tile(name@) {
            Some((y, tile_size)) => Ok::<TileRequest, u16>(
                TileRequest { tile: Tile { x, y, z }, tile_size },
            ),
            None => Err::<TileRequest, u16>(STATUS_BAD_REQUEST),
        }),
{
    match parse_tile_name(name) {
        Some((y, tile_size)) => Ok(TileRequest { tile: Tile::new(x, y, z), tile_size }),
        None => Err(STATUS_BAD_REQUEST),
    }
}

/// The answer for a tile that was encoded, or could not be.
pub fn png_response(encoded: Result<Vec<u8>, EncodeError>) -> (response: TileResponse)
    ensures
        match encoded {
            Ok(bytes) => response.status == STATUS_OK && response.body@ == bytes@,
            Err(_) => response.status == STATUS_INTERNAL_SERVER_ERROR && response.body@.len() == 0,
        },
{
    match encoded {
        Ok(bytes) => TileResponse { status: STATUS_OK, body: bytes },
        Err(_) => TileResponse { status: STATUS_INTERNAL_SERVER_ERROR, body: Vec::new() },
    }
}

/// The answer for a tile that was rendered, or could not be: the PNG file of
/// the raster with the status of success, or the status of a failure inside
/// the service where rendering failed or the raster has no pixels to encode.
pub fn render_response(rendered: Result<Raster, VulkanError>) -> (response: TileResponse)
    ensures
        response.status == STATUS_OK || response.status == STATUS_INTERNAL_SERVER_ERROR,
        response.status == STATUS_OK <==> (rendered matches Ok(raster) && raster@.width > 0
            && raster@.height > 0),
        response.status == STATUS_INTERNAL_SERVER_ERROR ==> response.body@.len() == 0,
        response.status == STATUS_OK ==> (rendered matches Ok(raster) && response.body@
            == png_bytes(raster@.width, raster@.height, raster@.pixels)),
{
    match rendered {
        Ok(raster) => png_response(encode_png(&raster)),
        Err(_) => TileResponse { status: STATUS_INTERNAL_SERVER_ERROR, body: Vec::new() },
    }
}

impl TileResponse {
    /// The content type of the body, where the answer has one.
    pub fn content_type(&self) -> (r: Option<&'static str>)
        ensures
            match r {
                Some(name) => self.status == STATUS_OK && name@ == "image/png"@,
                None => self.status != STATUS_OK,
            },
    {
        if self.status == STATUS_OK {
            Some("image/png")
        } else {
            None
        }
    }
}

} // verus!
