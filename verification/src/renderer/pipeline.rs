//! What is fixed about the line-drawing pipeline: the size of a tile in
//! pixels, the layout of a vertex, and the shader variants.

use vstd::prelude::*;
use vstd::string::StringExecFns;

verus! {

/// The width and the height of a tile, in pixels.
pub const TILE_SIZE: u32 = 256;

/// The width and the height of a high-resolution tile, in pixels.
pub const TILE_SIZE_2X: u32 = 512;

/// The bytes of one vertex in the vertex buffer: two 32-bit numbers,
/// longitude and latitude.
pub const VERTEX_STRIDE: u32 = 8;

/// The bytes of one pixel of a rendered tile: red, green, blue, alpha.
pub const BYTES_PER_PIXEL: u32 = 4;

/// How the vertex stage projects longitude and latitude into the tile.
#[derive(Debug, Clone, Copy, PartialEq, Eq, Structural)]
pub enum ShaderType {
    /// The spherical Mercator projection.
    Mercator,
    /// A linear projection, for debugging.
    Simple,
    /// Every vertex at the centre of the tile, to test the pipeline alone.
    Debug,
}

/// What the flags on the command line select: the linear projection where
/// `--simple-shader` is given, else the pipeline test where `--debug-shader`
/// is given, else the Mercator projection.
pub open spec fn selected_shader(args: Seq<Seq<char>>) -> ShaderType {
    if args.contains("--simple-shader"@) {
        ShaderType::Simple
    } else if args.contains("--debug-shader"@) {
        ShaderType::Debug
    } else {
        ShaderType::Mercator
    }
}

/// The arguments as sequences of characters.
pub open spec fn arg_views(args: Seq<String>) -> Seq<Seq<char>> {
    args.map_values(|arg: String| arg@)
}

fn has_flag(args: &[String], flag: &str) -> (found: bool)
    ensures
        found == arg_views(args@).contains(flag@),
{
    let wanted: String = String::from_str(flag);
    let mut i: usize = 0;
    while i < args.len()
        invariant
            i <= args@.len(),
            wanted@ == flag@,
            forall|j: int| 0 <= j < i ==> arg_views(args@)[j] != flag@,
        decreases args@.len() - i,
    {
        if args[i] == wanted {
            assert(arg_views(args@)[i as int] == flag@);
            return true;
        }
        i = i + 1;
    }
    false
}

impl ShaderType {
    /// The shader variant that the flags on the command line select.
    pub fn from_args(args: &[String]) -> (shader: ShaderType)
        ensures
            shader == selected_shader(arg_views(args@)),
    {
        if has_flag(args, "--simple-shader") {
            ShaderType::Simple
        } else if has_flag(args, "--debug-shader") {
            ShaderType::Debug
        } else {
            ShaderType::Mercator
        }
    }

    /// The path of the compiled vertex shader of the variant.
    pub fn vertex_shader_path(&self) -> (path: &'static str)
        ensures
            path@ == (match *self {
                ShaderType::Mercator => "shaders/tile.vert.spv"@,
                ShaderType::Simple => "shaders/tile_simple.vert.spv"@,
                ShaderType::Debug => "shaders/tile_debug.vert.spv"@,
            }),
    {
        match self {
            ShaderType::Mercator => "shaders/tile.vert.spv",
            ShaderType::Simple => "shaders/tile_simple.vert.spv",
            ShaderType::Debug => "shaders/tile_debug.vert.spv",
        }
    }
}

/// The path of the compiled fragment shader, which all variants share.
pub fn fragment_shader_path() -> (path: &'static str)
    ensures
        path@ == "shaders/tile.frag.spv"@,
{
    "shaders/tile.frag.spv"
}

/// The number of bytes of the raster of a square tile of `tile_size` pixels.
pub open spec fn raster_len(tile_size: nat) -> nat {
    tile_size * tile_size * 4
}

/// The number of bytes of the staging buffer that a rendered tile of
/// `tile_size` pixels is read back from.
pub fn staging_buffer_size(tile_size: u32) -> (size: u64)
    requires
        raster_len(tile_size as nat) <= u64::MAX,
    ensures
        size == raster_len(tile_size as nat),
{
    let side: u64 = tile_size as u64;
    assert(side * side <= side * side * 4) by (nonlinear_arith);
    side * side * (BYTES_PER_PIXEL as u64)
}

} // verus!
