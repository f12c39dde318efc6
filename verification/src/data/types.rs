//! Tile coordinates with the quadtree linear index, and the geometry of ways.

use vstd::arithmetic::div_mod::lemma_div_denominator;
use vstd::arithmetic::power::pow;
use vstd::arithmetic::power2::{lemma2_to64, lemma_pow2, lemma_pow2_adds, lemma_pow2_pos, lemma_pow2_strictly_increases, lemma_pow2_unfold, pow2};
use vstd::bits::lemma_u32_shr_is_div;
use vstd::prelude::*;
use crate::data::coord::{coord_le, coord_max, coord_min, is_nan, le, max_of, min_of, LARGEST, SMALLEST};

verus! {

/// A slippy-map tile: column `x` and row `y` at zoom level `z`.
#[derive(Debug, Clone, Copy, PartialEq, Eq, Hash, Structural)]
pub struct Tile {
    pub x: u32,
    pub y: u32,
    pub z: u32,
}

/// The number of tiles in all zoom levels below `z`: the sum of `4^k` for `k < z`.
pub open spec fn tiles_below(z: nat) -> nat
    decreases z,
{
    if z == 0 {
        0
    } else {
        tiles_below((z - 1) as nat) + pow(4, (z - 1) as nat) as nat
    }
}

/// The quadtree linear index of column `x`, row `y` at zoom `z`.
pub open spec fn tile_index(x: nat, y: nat, z: nat) -> nat {
    tiles_below(z) + y * pow2(z) + x
}

/// `4^k` is the square of `2^k`.
pub proof fn lemma_pow4_is_square(k: nat)
    ensures
        pow(4, k) == pow2(k) * pow2(k),
        pow(4, k) > 0,
    decreases k,
{
    reveal(pow);
    lemma_pow2(k);
    if k > 0 {
        lemma_pow4_is_square((k - 1) as nat);
        lemma_pow2_unfold(k);
        let h = pow2((k - 1) as nat) as int;
        assert(pow(4, k) == 4 * pow(4, (k - 1) as nat));
        assert((2 * h) * (2 * h) == 4 * (h * h)) by (nonlinear_arith);
    }
}

/// Closed form of the level offset: `3 * tiles_below(z) + 1 == 4^z`.
pub proof fn lemma_tiles_below_closed_form(z: nat)
    ensures
        3 * tiles_below(z) + 1 == pow(4, z),
    decreases z,
{
    reveal(pow);
    if z > 0 {
        lemma_tiles_below_closed_form((z - 1) as nat);
        lemma_pow4_is_square((z - 1) as nat);
    }
}

/// The level offsets grow with the zoom level.
pub proof fn lemma_tiles_below_increases(a: nat, b: nat)
    requires
        a <= b,
    ensures
        tiles_below(a) <= tiles_below(b),
    decreases b,
{
    if a < b {
        lemma_tiles_below_increases(a, (b - 1) as nat);
    }
}

/// The indices of one zoom level fill exactly the gap up to the next level's offset.
pub proof fn lemma_level_range(x: nat, y: nat, z: nat)
    requires
        x < pow2(z),
        y < pow2(z),
    ensures
        tiles_below(z) <= tile_index(x, y, z) < tiles_below(z + 1),
{
    lemma_pow4_is_square(z);
    let s = pow2(z) as int;
    assert(y * s + x < s * s) by (nonlinear_arith)
        requires
            0 <= x < s,
            0 <= y < s,
    ;
    assert(tiles_below(z + 1) == tiles_below(z) + pow(4, z) as nat);
}

impl Tile {
    pub fn new(x: u32, y: u32, z: u32) -> (tile: Tile)
        ensures
            tile == (Tile { x, y, z }),
    {
        Tile { x, y, z }
    }

    /// The tile lies inside the `2^z` by `2^z` grid of its zoom level.
    pub open spec fn valid(self) -> bool {
        self.x < pow2(self.z as nat) && self.y < pow2(self.z as nat)
    }

    /// Whether the tile lies inside the grid of its zoom level.
    pub fn is_valid(&self) -> (r: bool)
        ensures
            r == self.valid(),
    {
        if self.z >= 32 {
            proof {
                lemma2_to64();
                if self.z > 32 {
                    lemma_pow2_strictly_increases(32, self.z as nat);
                }
            }
            true
        } else {
            proof {
                lemma_u32_shr_is_div(self.x, self.z);
                lemma_u32_shr_is_div(self.y, self.z);
                lemma_pow2_pos(self.z as nat);
                let d = pow2(self.z as nat) as int;
                let (x, y) = (self.x as int, self.y as int);
                assert((x / d == 0 <==> x < d) && (y / d == 0 <==> y < d)) by (nonlinear_arith)
                    requires
                        0 <= x,
                        0 <= y,
                        d > 0,
                ;
            }
            (self.x >> self.z) == 0 && (self.y >> self.z) == 0
        }
    }

    /// The quadtree linear index of this tile.
    pub open spec fn index_spec(self) -> nat {
        tile_index(self.x as nat, self.y as nat, self.z as nat)
    }

    /// The index of the tile, or `None` where it does not fit in 64 bits.
    pub fn checked_index(&self) -> (r: Option<u64>)
        ensures
            r == (if self.index_spec() <= u64::MAX {
                Some(self.index_spec() as u64)
            } else {
                None
            }),
    {
        if self.z > 32 {
            proof {
                lemma_tiles_below_increases(33, self.z as nat);
                lemma_tiles_below_closed_form(33);
                lemma_pow4_is_square(33);
                lemma_pow2_adds(32, 1);
                lemma2_to64();
                assert(pow2(33) * pow2(33) >= 0x4_0000_0000_0000_0000) by (nonlinear_arith)
                    requires
                        pow2(33) == 0x2_0000_0000,
                ;
            }
            return None;
        }
        let mut total: u64 = 0;
        let mut side: u64 = 1;
        let mut k: u32 = 0;
        proof {
            lemma2_to64();
        }
        while k < self.z
            invariant
                k <= self.z <= 32,
                total == tiles_below(k as nat),
                side == pow2(k as nat),
            decreases self.z - k,
        {
            proof {
                lemma2_to64();
                lemma_pow4_is_square(k as nat);
                lemma_tiles_below_closed_form(k as nat);
                lemma_pow2_unfold((k + 1) as nat);
                if k < 31 {
                    lemma_pow2_strictly_increases(k as nat, 31);
                }
                assert(side <= 0x8000_0000);
                assert(side * side <= 0x4000_0000_0000_0000) by (nonlinear_arith)
                    requires
                        side <= 0x8000_0000,
                ;
            }
            total = total + side * side;
            side = side * 2;
            k = k + 1;
        }
        assert((self.y as int) * (side as int) <= 0xffff_ffff * 0xffff_ffff_ffff_ffff)
            by (nonlinear_arith)
            requires
                0 <= self.y <= 0xffff_ffff,
                0 <= side <= 0xffff_ffff_ffff_ffff,
        ;
        let wide: u128 = (self.y as u128) * (side as u128) + (self.x as u128) + (total as u128);
        assert(wide == self.index_spec()) by (nonlinear_arith)
            requires
                wide == (self.y as int) * (side as int) + (self.x as int) + (total as int),
                self.index_spec() == tiles_below(self.z as nat) + (self.y as nat) * pow2(
                    self.z as nat,
                ) + (self.x as nat),
                total == tiles_below(self.z as nat),
                side == pow2(self.z as nat),
        ;
        if wide > u64::MAX as u128 {
            None
        } else {
            Some(wide as u64)
        }
    }

    /// The index of the tile in the quadtree: all tiles of one zoom level come
    /// before those of the next, and within a level the tiles are numbered row
    /// by row.
    pub fn index(&self) -> (r: u64)
        requires
            self.index_spec() <= u64::MAX,
        ensures
            r == self.index_spec(),
    {
        match self.checked_index() {
            Some(i) => i,
            None => 0,
        }
    }

    /// The tile one zoom level up that covers this one; the root has none.
    pub fn get_parent(&self) -> (r: Option<Tile>)
        ensures
            r == (if self.z == 0 {
                None
            } else {
                Some(Tile { x: self.x / 2, y: self.y / 2, z: (self.z - 1) as u32 })
            }),
    {
        if self.z == 0 {
            None
        } else {
            Some(Tile { x: self.x / 2, y: self.y / 2, z: self.z - 1 })
        }
    }

    /// What `get_ancestor` returns for a target zoom not above this tile's.
    pub open spec fn ancestor_spec(self, target_z: u32) -> Tile
        recommends
            target_z <= self.z,
    {
        Tile {
            x: (self.x as nat / pow2((self.z - target_z) as nat)) as u32,
            y: (self.y as nat / pow2((self.z - target_z) as nat)) as u32,
            z: target_z,
        }
    }

    /// The tile at zoom `target_z` that covers this one: both coordinates
    /// shifted right by the difference of the zoom levels. There is none where
    /// `target_z` is above this tile's zoom.
    pub fn get_ancestor(&self, target_z: u32) -> (r: Option<Tile>)
        ensures
            r == (if target_z > self.z {
                None
            } else {
                Some(self.ancestor_spec(target_z))
            }),
    {
        if target_z > self.z {
            return None;
        }
        let levels_up: u32 = self.z - target_z;
        if levels_up >= 32 {
            proof {
                lemma2_to64();
                if levels_up > 32 {
                    lemma_pow2_strictly_increases(32, levels_up as nat);
                }
                let d = pow2(levels_up as nat) as int;
                assert(self.x as int / d == 0) by (nonlinear_arith)
                    requires
                        0 <= self.x < d,
                ;
                assert(self.y as int / d == 0) by (nonlinear_arith)
                    requires
                        0 <= self.y < d,
                ;
            }
            return Some(Tile { x: 0, y: 0, z: target_z });
        }
        proof {
            lemma_u32_shr_is_div(self.x, levels_up);
            lemma_u32_shr_is_div(self.y, levels_up);
        }
        Some(Tile { x: self.x >> levels_up, y: self.y >> levels_up, z: target_z })
    }
}

/// The index of every tile down to zoom 31 fits in 64 bits.
pub proof fn lemma_index_fits_below_zoom_32(t: Tile)
    requires
        t.z <= 31,
    ensures
        t.index_spec() <= u64::MAX,
{
    lemma_tiles_below_increases(t.z as nat, 31);
    lemma_tiles_below_closed_form(31);
    lemma_pow4_is_square(31);
    lemma2_to64();
    if t.z < 31 {
        lemma_pow2_strictly_increases(t.z as nat, 31);
    }
    let s = pow2(t.z as nat) as int;
    let y = t.y as int;
    assert(y * s <= 0xffff_ffff * 0x8000_0000) by (nonlinear_arith)
        requires
            0 <= y <= 0xffff_ffff,
            0 <= s <= 0x8000_0000,
    ;
    assert(pow2(31) * pow2(31) == 0x4000_0000_0000_0000) by (nonlinear_arith)
        requires
            pow2(31) == 0x8000_0000,
    ;
}

/// Two tiles inside their grids that have the same index are the same tile.
pub proof fn lemma_index_injective(a: Tile, b: Tile)
    requires
        a.valid(),
        b.valid(),
        a.index_spec() == b.index_spec(),
    ensures
        a == b,
{
    lemma_level_range(a.x as nat, a.y as nat, a.z as nat);
    lemma_level_range(b.x as nat, b.y as nat, b.z as nat);
    if a.z < b.z {
        lemma_tiles_below_increases((a.z + 1) as nat, b.z as nat);
    } else if b.z < a.z {
        lemma_tiles_below_increases((b.z + 1) as nat, a.z as nat);
    } else {
        let s = pow2(a.z as nat) as int;
        let (ax, ay, bx, by) = (a.x as int, a.y as int, b.x as int, b.y as int);
        assert(ay == by) by (nonlinear_arith)
            requires
                ay * s + ax == by * s + bx,
                0 <= ax < s,
                0 <= bx < s,
                0 <= ay,
                0 <= by,
        ;
        assert(ay * s == by * s);
    }
}

/// Every tile of a zoom level comes before every tile of a deeper level.
pub proof fn lemma_index_orders_zoom(a: Tile, b: Tile)
    requires
        a.valid(),
        b.valid(),
        a.z < b.z,
    ensures
        a.index_spec() < b.index_spec(),
{
    lemma_level_range(a.x as nat, a.y as nat, a.z as nat);
    lemma_level_range(b.x as nat, b.y as nat, b.z as nat);
    lemma_tiles_below_increases((a.z + 1) as nat, b.z as nat);
}

/// Within one zoom level the tiles are numbered row by row: a tile comes
/// before another exactly when its row is above, or the rows are the same and
/// its column is to the left.
pub proof fn lemma_index_orders_rows(a: Tile, b: Tile)
    requires
        a.valid(),
        b.valid(),
        a.z == b.z,
    ensures
        a.index_spec() < b.index_spec() <==> (a.y < b.y || (a.y == b.y && a.x < b.x)),
{
    let s = pow2(a.z as nat) as int;
    let (ax, ay, bx, by) = (a.x as int, a.y as int, b.x as int, b.y as int);
    assert(ay < by ==> ay * s + ax < by * s + bx) by (nonlinear_arith)
        requires
            0 <= ax < s,
            0 <= bx < s,
            0 <= ay,
            0 <= by,
    ;
    assert(by < ay ==> by * s + bx < ay * s + ax) by (nonlinear_arith)
        requires
            0 <= ax < s,
            0 <= bx < s,
            0 <= ay,
            0 <= by,
    ;
}

/// The zoom level whose index range holds `n`, found upwards from `z`.
proof fn lemma_level_of(n: nat, z: nat) -> (level: nat)
    requires
        tiles_below(z) <= n,
    ensures
        tiles_below(level) <= n < tiles_below(level + 1),
    decreases n - tiles_below(z),
{
    lemma_pow4_is_square(z);
    if n < tiles_below(z + 1) {
        z
    } else {
        lemma_level_of(n, z + 1)
    }
}

/// The index is dense: every number is the index of a tile inside its grid.
pub proof fn lemma_index_dense(n: nat) -> (t: (nat, nat, nat))
    ensures
        t.0 < pow2(t.2),
        t.1 < pow2(t.2),
        tile_index(t.0, t.1, t.2) == n,
{
    let z = lemma_level_of(n, 0);
    lemma_pow4_is_square(z);
    lemma_pow2_pos(z);
    let s = pow2(z) as int;
    let off = n - tiles_below(z);
    let y = off / s;
    let x = off % s;
    assert(0 <= x < s && 0 <= y < s && y * s + x == off) by (nonlinear_arith)
        requires
            0 <= off < s * s,
            s > 0,
            y == off / s,
            x == off % s,
    ;
    (x as nat, y as nat, z)
}

/// The ancestor at a tile's own zoom is the tile itself.
pub proof fn lemma_ancestor_at_own_zoom(t: Tile)
    ensures
        t.ancestor_spec(t.z) == t,
{
    lemma2_to64();
    assert(pow2((t.z - t.z) as nat) == 1);
    assert(t.x as nat / 1 == t.x && t.y as nat / 1 == t.y);
}

/// The ancestor one level up is the parent.
pub proof fn lemma_parent_is_ancestor(t: Tile)
    requires
        t.z > 0,
    ensures
        t.ancestor_spec((t.z - 1) as u32) == (Tile {
            x: t.x / 2,
            y: t.y / 2,
            z: (t.z - 1) as u32,
        }),
{
    lemma2_to64();
}

/// Taking an ancestor in two steps gives the same tile as taking it in one.
pub proof fn lemma_ancestor_composes(t: Tile, mid_z: u32, target_z: u32)
    requires
        target_z <= mid_z <= t.z,
    ensures
        t.ancestor_spec(mid_z).ancestor_spec(target_z) == t.ancestor_spec(target_z),
{
    let a = (t.z - mid_z) as nat;
    let b = (mid_z - target_z) as nat;
    lemma_pow2_adds(a, b);
    lemma_pow2_pos(a);
    lemma_pow2_pos(b);
    lemma_quotient_fits(t.x, a);
    lemma_quotient_fits(t.y, a);
    lemma_div_denominator(t.x as int, pow2(a) as int, pow2(b) as int);
    lemma_div_denominator(t.y as int, pow2(a) as int, pow2(b) as int);
}

/// An ancestor of a tile inside its grid is inside the grid of its own level.
pub proof fn lemma_ancestor_valid(t: Tile, target_z: u32)
    requires
        t.valid(),
        target_z <= t.z,
    ensures
        t.ancestor_spec(target_z).valid(),
{
    let k = (t.z - target_z) as nat;
    lemma_pow2_adds(target_z as nat, k);
    lemma_pow2_pos(k);
    lemma_quotient_fits(t.x, k);
    lemma_quotient_fits(t.y, k);
    let d = pow2(k) as int;
    let s = pow2(target_z as nat) as int;
    let (x, y) = (t.x as int, t.y as int);
    assert(x / d < s && y / d < s) by (nonlinear_arith)
        requires
            0 <= x < s * d,
            0 <= y < s * d,
            d > 0,
    ;
}

/// A tile lies inside its grid exactly when its ancestor lies inside the grid
/// of the ancestor's level.
pub proof fn lemma_ancestor_valid_iff(t: Tile, target_z: u32)
    requires
        target_z <= t.z,
    ensures
        t.ancestor_spec(target_z).valid() == t.valid(),
{
    let k = (t.z - target_z) as nat;
    lemma_pow2_adds(target_z as nat, k);
    lemma_pow2_pos(k);
    lemma_pow2_pos(target_z as nat);
    lemma_quotient_fits(t.x, k);
    lemma_quotient_fits(t.y, k);
    let d = pow2(k) as int;
    let s = pow2(target_z as nat) as int;
    let (x, y) = (t.x as int, t.y as int);
    assert((x / d < s <==> x < s * d) && (y / d < s <==> y < s * d)) by (nonlinear_arith)
        requires
            0 <= x,
            0 <= y,
            d > 0,
            s > 0,
    ;
}

/// A coordinate divided by a power of two is no larger than the coordinate.
proof fn lemma_quotient_fits(x: u32, k: nat)
    ensures
        0 <= x as nat / pow2(k) <= x,
{
    lemma_pow2_pos(k);
    let d = pow2(k) as int;
    let xi = x as int;
    assert(0 <= xi / d <= xi) by (nonlinear_arith)
        requires
            0 <= xi,
            d > 0,
    ;
}

/// A geographic position. Each coordinate is a number of degrees, held as the
/// bit pattern of an IEEE 754 binary64 number (see the module `coord`).
#[derive(Debug, Clone, Copy, PartialEq, Eq, Structural)]
pub struct Point {
    pub lon: u64,
    pub lat: u64,
}

impl Point {
    pub fn new(lon: u64, lat: u64) -> (point: Point)
        ensures
            point == (Point { lon, lat }),
    {
        Point { lon, lat }
    }
}

/// A rectangle of positions, closed on all four sides.
#[derive(Debug, Clone, Copy, PartialEq, Eq, Structural)]
pub struct BoundingBox {
    pub min: Point,
    pub max: Point,
}

impl BoundingBox {
    pub fn new(min: Point, max: Point) -> (bbox: BoundingBox)
        ensures
            bbox == (BoundingBox { min, max }),
    {
        BoundingBox { min, max }
    }

    /// The lower corner is at or below the upper corner on both axes. This
    /// leaves out every box with a NaN in it.
    pub open spec fn well_formed(self) -> bool {
        le(self.min.lon, self.max.lon) && le(self.min.lat, self.max.lat)
    }

    /// The position lies in the box, borders included.
    pub open spec fn contains_spec(self, point: Point) -> bool {
        &&& le(self.min.lat, point.lat)
        &&& le(point.lat, self.max.lat)
        &&& le(self.min.lon, point.lon)
        &&& le(point.lon, self.max.lon)
    }

    /// The two boxes have a position in common, borders included.
    pub open spec fn overlaps_spec(self, other: BoundingBox) -> bool {
        &&& le(self.min.lat, other.max.lat)
        &&& le(other.min.lat, self.max.lat)
        &&& le(self.min.lon, other.max.lon)
        &&& le(other.min.lon, self.max.lon)
    }

    /// The box that nothing has been added to yet: every number is below its
    /// lower corner's coordinates or equal to them, and above its upper
    /// corner's or equal to them.
    pub open spec fn nothing() -> BoundingBox {
        BoundingBox {
            min: Point { lon: LARGEST, lat: LARGEST },
            max: Point { lon: SMALLEST, lat: SMALLEST },
        }
    }

    /// The box grown to hold the position. A coordinate that is a NaN changes
    /// nothing on its axis.
    pub open spec fn extended(self, point: Point) -> BoundingBox {
        BoundingBox {
            min: Point {
                lon: min_of(self.min.lon, point.lon),
                lat: min_of(self.min.lat, point.lat),
            },
            max: Point {
                lon: max_of(self.max.lon, point.lon),
                lat: max_of(self.max.lat, point.lat),
            },
        }
    }

    /// The box grown from `nothing` by the positions in turn.
    pub open spec fn bounds_of(points: Seq<Point>) -> BoundingBox
        decreases points.len(),
    {
        if points.len() == 0 {
            Self::nothing()
        } else {
            Self::bounds_of(points.drop_last()).extended(points.last())
        }
    }

    /// Whether the position lies in the box, borders included.
    pub fn contains(&self, point: &Point) -> (r: bool)
        ensures
            r == self.contains_spec(*point),
    {
        coord_le(self.min.lat, point.lat) && coord_le(point.lat, self.max.lat) && coord_le(
            self.min.lon,
            point.lon,
        ) && coord_le(point.lon, self.max.lon)
    }

    /// Whether the two boxes have a position in common, borders included.
    pub fn overlaps(&self, other: &BoundingBox) -> (r: bool)
        ensures
            r == self.overlaps_spec(*other),
    {
        coord_le(self.min.lat, other.max.lat) && coord_le(other.min.lat, self.max.lat)
            && coord_le(self.min.lon, other.max.lon) && coord_le(other.min.lon, self.max.lon)
    }

    /// The smallest box that holds all the positions; none for an empty list.
    pub fn from_points(points: &[Point]) -> (r: Option<BoundingBox>)
        ensures
            r == (if points@.len() == 0 {
                None
            } else {
                Some(Self::bounds_of(points@))
            }),
    {
        if points.len() == 0 {
            return None;
        }
        let mut min_lon: u64 = LARGEST;
        let mut min_lat: u64 = LARGEST;
        let mut max_lon: u64 = SMALLEST;
        let mut max_lat: u64 = SMALLEST;
        let mut i: usize = 0;
        while i < points.len()
            invariant
                i <= points@.len(),
                Self::bounds_of(points@.take(i as int)) == (BoundingBox {
                    min: Point { lon: min_lon, lat: min_lat },
                    max: Point { lon: max_lon, lat: max_lat },
                }),
            decreases points@.len() - i,
        {
            let point: Point = points[i];
            proof {
                let next = points@.take(i + 1);
                assert(next.drop_last() == points@.take(i as int));
                assert(next.last() == point);
            }
            min_lon = coord_min(min_lon, point.lon);
            min_lat = coord_min(min_lat, point.lat);
            max_lon = coord_max(max_lon, point.lon);
            max_lat = coord_max(max_lat, point.lat);
            i = i + 1;
        }
        assert(points@.take(i as int) == points@);
        Some(BoundingBox { min: Point::new(min_lon, min_lat), max: Point::new(max_lon, max_lat) })
    }
}

/// The byte offset of a map object in the object store.
pub type MapObjectOffset = u64;

/// The geometry of one way: its positions in order, and a box around them.
#[derive(Debug, Clone)]
pub struct MapObject {
    pub bounding_box: BoundingBox,
    pub points: Vec<Point>,
}

/// What a map object holds, as mathematical values.
pub struct Geometry {
    pub bounding_box: BoundingBox,
    pub points: Seq<Point>,
}

impl View for MapObject {
    type V = Geometry;

    open spec fn view(&self) -> Geometry {
        Geometry { bounding_box: self.bounding_box, points: self.points@ }
    }
}

impl MapObject {
    pub fn new(bounding_box: BoundingBox, points: Vec<Point>) -> (object: MapObject)
        ensures
            object.bounding_box == bounding_box,
            object.points == points,
    {
        MapObject { bounding_box, points }
    }
}

/// Overlap does not depend on which of the two boxes is asked.
pub proof fn lemma_overlaps_symmetric(a: BoundingBox, b: BoundingBox)
    ensures
        a.overlaps_spec(b) == b.overlaps_spec(a),
{
}

/// A well-formed box overlaps itself.
pub proof fn lemma_overlaps_reflexive(a: BoundingBox)
    requires
        a.well_formed(),
    ensures
        a.overlaps_spec(a),
{
}

/// Only a well-formed box overlaps itself.
pub proof fn lemma_overlaps_self(a: BoundingBox)
    ensures
        a.overlaps_spec(a) == a.well_formed(),
{
}

/// A well-formed box contains both of its corners.
pub proof fn lemma_contains_corners(a: BoundingBox)
    requires
        a.well_formed(),
    ensures
        a.contains_spec(a.min),
        a.contains_spec(a.max),
{
}

/// A box contains a position exactly when it overlaps the box that holds
/// nothing but that position, whichever of the two is asked.
pub proof fn lemma_contains_is_overlap(a: BoundingBox, p: Point)
    ensures
        a.contains_spec(p) == a.overlaps_spec(BoundingBox { min: p, max: p }),
        a.contains_spec(p) == (BoundingBox { min: p, max: p }).overlaps_spec(a),
{
}

/// Two boxes that contain the same position overlap.
pub proof fn lemma_common_point_overlaps(a: BoundingBox, b: BoundingBox, p: Point)
    requires
        a.contains_spec(p),
        b.contains_spec(p),
    ensures
        a.overlaps_spec(b),
{
}

/// What holds of the box of a list of positions on each axis: a bound is a
/// number, and both bounds come from the list as soon as one coordinate on
/// that axis is a number.
pub open spec fn axis_settled(points: Seq<Point>, lo: u64, hi: u64, lon: bool) -> bool {
    &&& !is_nan(lo)
    &&& !is_nan(hi)
    &&& (exists|i: int| 0 <= i < points.len() && !is_nan(#[trigger] axis(points[i], lon))) ==> le(
        lo,
        hi,
    )
    &&& forall|i: int|
        0 <= i < points.len() && !is_nan(#[trigger] axis(points[i], lon)) ==> le(
            lo,
            axis(points[i], lon),
        ) && le(axis(points[i], lon), hi)
}

/// The longitude of a position, or its latitude.
pub open spec fn axis(p: Point, lon: bool) -> u64 {
    if lon {
        p.lon
    } else {
        p.lat
    }
}

/// The box of a list of positions bounds every coordinate that is a number.
pub proof fn lemma_bounds_of(points: Seq<Point>)
    ensures
        axis_settled(
            points,
            BoundingBox::bounds_of(points).min.lon,
            BoundingBox::bounds_of(points).max.lon,
            true,
        ),
        axis_settled(
            points,
            BoundingBox::bounds_of(points).min.lat,
            BoundingBox::bounds_of(points).max.lat,
            false,
        ),
    decreases points.len(),
{
    if points.len() > 0 {
        let front = points.drop_last();
        lemma_bounds_of(front);
        let b = BoundingBox::bounds_of(front);
        let r = BoundingBox::bounds_of(points);
        assert forall|i: int| 0 <= i < front.len() implies front[i] == points[i] by {}
        assert forall|i: int| 0 <= i < points.len() && !is_nan(#[trigger] axis(points[i], true)) implies le(
            r.min.lon,
            axis(points[i], true),
        ) && le(axis(points[i], true), r.max.lon) by {
            if i < front.len() {
                assert(front[i] == points[i]);
            }
        }
        assert forall|i: int| 0 <= i < points.len() && !is_nan(#[trigger] axis(points[i], false)) implies le(
            r.min.lat,
            axis(points[i], false),
        ) && le(axis(points[i], false), r.max.lat) by {
            if i < front.len() {
                assert(front[i] == points[i]);
            }
        }
    }
}

/// The box of a list of positions is well formed as soon as one longitude and
/// one latitude in the list are numbers, and it then contains every position
/// of the list whose coordinates are both numbers.
pub proof fn lemma_from_points_well_formed(points: Seq<Point>)
    requires
        exists|i: int| 0 <= i < points.len() && !is_nan(#[trigger] axis(points[i], true)),
        exists|i: int| 0 <= i < points.len() && !is_nan(#[trigger] axis(points[i], false)),
    ensures
        BoundingBox::bounds_of(points).well_formed(),
        forall|i: int|
            0 <= i < points.len() && !is_nan(points[i].lon) && !is_nan(points[i].lat)
                ==> BoundingBox::bounds_of(points).contains_spec(#[trigger] points[i]),
{
    lemma_bounds_of(points);
    let r = BoundingBox::bounds_of(points);
    assert forall|i: int|
        0 <= i < points.len() && !is_nan(points[i].lon) && !is_nan(
            points[i].lat,
        ) implies r.contains_spec(#[trigger] points[i]) by {
        assert(!is_nan(axis(points[i], true)));
        assert(!is_nan(axis(points[i], false)));
    }
}

} // verus!
