//! The raster of a rendered tile: rows of pixels of four bytes each, red,
//! green, blue and alpha.

use vstd::prelude::*;
use vstd::slice::slice_to_vec;
use crate::renderer::pipeline::raster_len;
use crate::renderer::vulkan::VulkanError;

verus! {

/// A raster of `width` by `height` pixels.
pub struct Raster {
    width: u32,
    height: u32,
    pixels: Vec<u8>,
}

/// What a raster holds, as mathematical values.
pub struct RasterData {
    pub width: u32,
    pub height: u32,
    pub pixels: Seq<u8>,
}

impl View for Raster {
    type V = RasterData;

    closed spec fn view(&self) -> RasterData {
        RasterData { width: self.width, height: self.height, pixels: self.pixels@ }
    }
}

/// The pixel at place `i` of the raster is white: red, green and blue are all
/// at their highest. The alpha byte does not count.
pub open spec fn is_white(pixels: Seq<u8>, i: int) -> bool {
    pixels[4 * i] == 255 && pixels[4 * i + 1] == 255 && pixels[4 * i + 2] == 255
}

/// The number of pixels among the first `n` that are not white.
pub open spec fn non_white_count(pixels: Seq<u8>, n: nat) -> nat
    decreases n,
{
    if n == 0 {
        0
    } else {
        non_white_count(pixels, (n - 1) as nat) + if is_white(pixels, n - 1) {
            0nat
        } else {
            1nat
        }
    }
}

/// The bytes of an all-white opaque raster of `len` bytes.
pub open spec fn white(len: nat) -> Seq<u8> {
    Seq::new(len, |i: int| 255u8)
}

impl RasterData {
    /// The raster has four bytes for each of its pixels.
    pub open spec fn well_formed(self) -> bool {
        self.pixels.len() == self.width * self.height * 4
    }
}

impl Raster {
    #[verifier::type_invariant]
    spec fn sized(&self) -> bool {
        self.pixels@.len() == self.width * self.height * 4
    }

    /// The all-white opaque tile of `tile_size` by `tile_size` pixels.
    pub fn blank(tile_size: u32) -> (raster: Raster)
        requires
            raster_len(tile_size as nat) <= usize::MAX,
        ensures
            raster@.width == tile_size,
            raster@.height == tile_size,
            raster@.pixels == white(raster_len(tile_size as nat)),
    {
        let side: usize = tile_size as usize;
        assert(side * side <= side * side * 4) by (nonlinear_arith);
        let len: usize = side * side * 4;
        let pixels: Vec<u8> = vec![255u8; len];
        assert(pixels@ =~= white(raster_len(tile_size as nat)));
        Raster { width: tile_size, height: tile_size, pixels }
    }

    /// The raster of the given size over the bytes, which may be more than
    /// the raster takes: the rest is dropped. There is none where the bytes
    /// are too few.
    pub fn from_raw(width: u32, height: u32, pixels: Vec<u8>) -> (r: Option<Raster>)
        ensures
            match r {
                Some(raster) => width * height * 4 <= pixels@.len() && raster@ == (RasterData {
                    width,
                    height,
                    pixels: pixels@.take(width * height * 4),
                }),
                None => width * height * 4 > pixels@.len(),
            },
    {
        assert((width as int) * (height as int) * 4 <= 0xffff_ffff * 0xffff_ffff * 4)
            by (nonlinear_arith)
            requires
                0 <= width <= 0xffff_ffff,
                0 <= height <= 0xffff_ffff,
        ;
        assert(0 <= (width as int) * (height as int) <= (width as int) * (height as int) * 4)
            by (nonlinear_arith)
            requires
                0 <= width,
                0 <= height,
        ;
        let needed: u128 = (width as u128) * (height as u128) * 4;
        if needed > pixels.len() as u128 {
            return None;
        }
        let mut pixels = pixels;
        pixels.truncate(needed as usize);
        Some(Raster { width, height, pixels })
    }

    /// The width in pixels.
    pub fn width(&self) -> (width: u32)
        ensures
            width == self@.width,
    {
        self.width
    }

    /// The height in pixels.
    pub fn height(&self) -> (height: u32)
        ensures
            height == self@.height,
    {
        self.height
    }

    /// The bytes of the pixels, row by row: four for each pixel.
    pub fn as_raw(&self) -> (pixels: &Vec<u8>)
        ensures
            pixels@ == self@.pixels,
            self@.well_formed(),
    {
        proof {
            use_type_invariant(self);
        }
        &self.pixels
    }

    /// The number of pixels that are not white.
    pub fn non_white_pixels(&self) -> (count: usize)
        ensures
            count == non_white_count(self@.pixels, (self@.pixels.len() / 4) as nat),
    {
        let n: usize = self.pixels.len() / 4;
        let mut count: usize = 0;
        let mut i: usize = 0;
        while i < n
            invariant
                i <= n,
                n == self.pixels@.len() / 4,
                self.pixels@.len() == self.pixels.len(),
                count <= i,
                count == non_white_count(self.pixels@, i as nat),
            decreases n - i,
        {
            if self.pixels[4 * i] != 255 || self.pixels[4 * i + 1] != 255 || self.pixels[4 * i + 2]
                != 255 {
                count = count + 1;
            }
            i = i + 1;
        }
        count
    }
}

/// The raster of a tile of `tile_size` by `tile_size` pixels that was read
/// back into the staging buffer. Bytes that are too few for the raster are an
/// error.
pub fn read_framebuffer(staging: &[u8], tile_size: u32) -> (r: Result<Raster, VulkanError>)
    ensures
        match r {
            Ok(raster) => raster_len(tile_size as nat) <= staging@.len() && raster@ == (RasterData {
                width: tile_size,
                height: tile_size,
                pixels: staging@.take(raster_len(tile_size as nat) as int),
            }),
            Err(e) => e == VulkanError::IoError && raster_len(tile_size as nat) > staging@.len(),
        },
{
    match Raster::from_raw(tile_size, tile_size, slice_to_vec(staging)) {
        Some(raster) => Ok(raster),
        None => Err(VulkanError::IoError),
    }
}

/// No pixel of an all-white raster is counted as not white.
pub proof fn lemma_white_has_no_other_pixel(len: nat, n: nat)
    requires
        4 * n <= len,
    ensures
        non_white_count(white(len), n) == 0,
    decreases n,
{
    if n > 0 {
        lemma_white_has_no_other_pixel(len, (n - 1) as nat);
    }
}

} // verus!
