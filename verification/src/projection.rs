//! The tiles that a bounding box reaches.
//!
//! The corners of the box are projected to tile coordinates by the caller;
//! here the rectangle between them is walked, zoom level by zoom level, as
//! far as it lies inside the grid of the level.

use vstd::arithmetic::power2::{lemma2_to64, lemma_pow2_pos, lemma_pow2_strictly_increases, pow2};
use vstd::bits::lemma_u32_shl_is_mul;
use vstd::prelude::*;
use crate::data::types::Tile;

verus! {

/// The tiles of one zoom level between two corners, both included: the
/// corner to the north-west, with the smaller coordinates, and the corner to
/// the south-east.
#[derive(Debug, Clone, Copy, PartialEq, Eq, Structural)]
pub struct TileRange {
    pub z: u32,
    pub min_x: u32,
    pub min_y: u32,
    pub max_x: u32,
    pub max_y: u32,
}

/// The last column, and the last row, of the grid of a zoom level: `2^z - 1`,
/// or the largest coordinate there is where the grid is wider than that.
pub open spec fn grid_last(z: u32) -> u32 {
    if pow2(z as nat) > u32::MAX {
        u32::MAX
    } else {
        (pow2(z as nat) - 1) as u32
    }
}

/// The smaller of two coordinates.
pub open spec fn at_most(a: u32, b: u32) -> u32 {
    if a <= b {
        a
    } else {
        b
    }
}

fn last_in_grid(z: u32) -> (last: u32)
    ensures
        last == grid_last(z),
{
    proof {
        lemma2_to64();
    }
    if z >= 32 {
        proof {
            if z > 32 {
                lemma_pow2_strictly_increases(32, z as nat);
            }
        }
        u32::MAX
    } else {
        proof {
            if z < 31 {
                lemma_pow2_strictly_increases(z as nat, 31);
            }
            lemma_u32_shl_is_mul(1, z);
        }
        let side: u32 = 1u32 << z;
        side - 1
    }
}

impl TileRange {
    /// The corners are the right way round: the range has tiles.
    pub open spec fn proper(self) -> bool {
        self.min_x <= self.max_x && self.min_y <= self.max_y
    }

    /// The range with each corner moved into the grid of its zoom level: a
    /// coordinate beyond the last column or row becomes that column or row.
    pub open spec fn clamped(self) -> TileRange {
        TileRange {
            z: self.z,
            min_x: at_most(self.min_x, grid_last(self.z)),
            min_y: at_most(self.min_y, grid_last(self.z)),
            max_x: at_most(self.max_x, grid_last(self.z)),
            max_y: at_most(self.max_y, grid_last(self.z)),
        }
    }

    /// The tiles of the range inside the grid of its zoom level: those
    /// between the corners moved into the grid, or none where the corners are
    /// the wrong way round.
    pub open spec fn tiles_in_grid(self) -> Seq<Tile> {
        if self.proper() {
            self.clamped().tiles()
        } else {
            Seq::empty()
        }
    }

    /// The range with each corner moved into the grid of its zoom level.
    pub fn clamp(&self) -> (r: TileRange)
        ensures
            r == self.clamped(),
    {
        let last: u32 = last_in_grid(self.z);
        TileRange {
            z: self.z,
            min_x: if self.min_x <= last {
                self.min_x
            } else {
                last
            },
            min_y: if self.min_y <= last {
                self.min_y
            } else {
                last
            },
            max_x: if self.max_x <= last {
                self.max_x
            } else {
                last
            },
            max_y: if self.max_y <= last {
                self.max_y
            } else {
                last
            },
        }
    }

    /// The number of columns of the range.
    pub open spec fn columns(self) -> nat {
        if self.min_x <= self.max_x {
            (self.max_x - self.min_x + 1) as nat
        } else {
            0
        }
    }

    /// The number of rows of the range.
    pub open spec fn rows(self) -> nat {
        if self.min_y <= self.max_y {
            (self.max_y - self.min_y + 1) as nat
        } else {
            0
        }
    }

    /// The tiles of the range, column by column and each column from north to
    /// south. A range whose corners are the wrong way round has none.
    pub open spec fn tiles(self) -> Seq<Tile> {
        Seq::new(
            self.columns() * self.rows(),
            |k: int|
                Tile {
                    x: (self.min_x + k / (self.rows() as int)) as u32,
                    y: (self.min_y + k % (self.rows() as int)) as u32,
                    z: self.z,
                },
        )
    }

    /// The tile lies in the range.
    pub open spec fn covers(self, tile: Tile) -> bool {
        tile.z == self.z && self.min_x <= tile.x <= self.max_x && self.min_y <= tile.y
            <= self.max_y
    }
}

/// The tiles of all the ranges that lie inside their grids, range by range.
pub open spec fn tiles_of(ranges: Seq<TileRange>) -> Seq<Tile>
    decreases ranges.len(),
{
    if ranges.len() == 0 {
        Seq::empty()
    } else {
        tiles_of(ranges.drop_last()) + ranges.last().tiles_in_grid()
    }
}

/// Appends the tiles of the range.
fn push_range(tiles: &mut Vec<Tile>, range: &TileRange)
    ensures
        final(tiles)@ == old(tiles)@ + range.tiles(),
{
    if range.min_x > range.max_x || range.min_y > range.max_y {
        assert(range.columns() * range.rows() == 0) by (nonlinear_arith)
            requires
                range.columns() == 0 || range.rows() == 0,
        ;
        assert(tiles@ == old(tiles)@ + range.tiles());
        return ;
    }
    let ghost rows = range.rows() as int;
    let ghost all = range.tiles();
    let mut x: u32 = range.min_x;
    let mut columns_done: bool = false;
    while !columns_done
        invariant
            range.min_x <= x <= range.max_x,
            range.min_y <= range.max_y,
            rows == range.rows(),
            all == range.tiles(),
            columns_done ==> x == range.max_x,
            tiles@ == old(tiles)@ + all.take(
                if columns_done {
                    (x - range.min_x + 1) * rows
                } else {
                    (x - range.min_x) * rows
                },
            ),
        decreases range.max_x - x + (if columns_done { 0int } else { 1int }),
    {
        let ghost column = (x - range.min_x) as int;
        let ghost start = column * rows;
        proof {
            assert(start + rows <= range.columns() * rows) by (nonlinear_arith)
                requires
                    0 <= column < range.columns(),
                    start == column * rows,
                    rows >= 0,
            ;
            assert((column + 1) * rows == start + rows) by (nonlinear_arith)
                requires
                    start == column * rows,
            ;
        }
        let mut y: u32 = range.min_y;
        let mut rows_done: bool = false;
        while !rows_done
            invariant
                range.min_x <= x <= range.max_x,
                range.min_y <= y <= range.max_y,
                rows == range.rows(),
                all == range.tiles(),
                column == x - range.min_x,
                start == column * rows,
                start + rows <= all.len(),
                rows_done ==> y == range.max_y,
                tiles@ == old(tiles)@ + all.take(
                    start + (if rows_done {
                        y - range.min_y + 1
                    } else {
                        y - range.min_y
                    }),
                ),
            decreases range.max_y - y + (if rows_done { 0int } else { 1int }),
        {
            let ghost row = (y - range.min_y) as int;
            proof {
                let k = start + row;
                assert(k / rows == column && k % rows == row) by (nonlinear_arith)
                    requires
                        k == column * rows + row,
                        0 <= row < rows,
                        0 <= column,
                ;
                assert(all[k] == Tile { x, y, z: range.z });
                assert(all.take(k + 1) == all.take(k).push(all[k]));
            }
            tiles.push(Tile { x, y, z: range.z });
            if y == range.max_y {
                rows_done = true;
            } else {
                y = y + 1;
            }
        }
        if x == range.max_x {
            columns_done = true;
        } else {
            x = x + 1;
        }
    }
    proof {
        assert((range.max_x - range.min_x + 1) * rows == all.len());
        assert(all.take(all.len() as int) == all);
    }
}

/// Appends the tiles of the range that lie inside the grid of its zoom level.
fn push_range_in_grid(tiles: &mut Vec<Tile>, range: &TileRange)
    ensures
        final(tiles)@ == old(tiles)@ + range.tiles_in_grid(),
{
    if range.min_x <= range.max_x && range.min_y <= range.max_y {
        let inside: TileRange = range.clamp();
        push_range(tiles, &inside);
    } else {
        assert(tiles@ == old(tiles)@ + Seq::<Tile>::empty());
    }
}

/// The tiles of one zoom level between two corners, as far as they lie
/// inside the grid of the level.
pub fn tiles_in_range(range: &TileRange) -> (tiles: Vec<Tile>)
    ensures
        tiles@ == range.tiles_in_grid(),
        forall|k: int| 0 <= k < tiles@.len() ==> (#[trigger] tiles@[k]).valid(),
{
    let mut tiles: Vec<Tile> = Vec::new();
    push_range_in_grid(&mut tiles, range);
    proof {
        assert(Seq::<Tile>::empty() + range.tiles_in_grid() == range.tiles_in_grid());
        lemma_tiles_in_grid_valid(*range);
    }
    tiles
}

/// All the tiles that a bounding box reaches, given for each zoom level the
/// tiles that hold its north-west and its south-east corner: zoom level by
/// zoom level, the rectangle of tiles between the two, with each corner
/// moved into the grid of the level. At zoom 0 that is the one tile there is.
pub fn get_tiles_for_bounding_box(ranges: &[TileRange]) -> (tiles: Vec<Tile>)
    ensures
        tiles@ == tiles_of(ranges@),
        forall|k: int| 0 <= k < tiles@.len() ==> (#[trigger] tiles@[k]).valid(),
{
    let mut tiles: Vec<Tile> = Vec::new();
    let mut i: usize = 0;
    while i < ranges.len()
        invariant
            i <= ranges@.len(),
            tiles@ == tiles_of(ranges@.take(i as int)),
            forall|k: int| 0 <= k < tiles@.len() ==> (#[trigger] tiles@[k]).valid(),
        decreases ranges@.len() - i,
    {
        proof {
            let next = ranges@.take(i + 1);
            assert(next.drop_last() == ranges@.take(i as int));
            assert(next.last() == ranges@[i as int]);
            lemma_tiles_in_grid_valid(ranges@[i as int]);
        }
        push_range_in_grid(&mut tiles, &ranges[i]);
        i = i + 1;
    }
    assert(ranges@.take(i as int) == ranges@);
    tiles
}

/// Every tile of a range inside the grid lies inside the grid.
pub proof fn lemma_tiles_in_grid_valid(range: TileRange)
    ensures
        forall|k: int|
            0 <= k < range.tiles_in_grid().len() ==> (#[trigger] range.tiles_in_grid()[k]).valid(),
{
    if range.proper() {
        let inside = range.clamped();
        lemma_range_tiles(inside);
        lemma_pow2_pos(range.z as nat);
        assert(grid_last(range.z) < pow2(range.z as nat));
        assert forall|k: int| 0 <= k < inside.tiles().len() implies (
        #[trigger] inside.tiles()[k]).valid() by {
            let tile = inside.tiles()[k];
            assert(inside.covers(tile));
            assert(tile.x <= grid_last(range.z) && tile.y <= grid_last(range.z));
        }
    }
}

/// A range inside the grid is its own part inside the grid.
pub proof fn lemma_range_inside_grid(range: TileRange)
    requires
        range.max_x <= grid_last(range.z),
        range.max_y <= grid_last(range.z),
    ensures
        range.tiles_in_grid() == range.tiles(),
{
    if range.proper() {
        assert(range.clamped() == range);
    } else {
        assert(range.columns() * range.rows() == 0) by (nonlinear_arith)
            requires
                range.columns() == 0 || range.rows() == 0,
        ;
        assert(range.tiles() =~= Seq::<Tile>::empty());
    }
}

/// At zoom 0 every range whose corners are the right way round gives exactly
/// the one tile of the level.
pub proof fn lemma_zoom_zero(range: TileRange)
    requires
        range.z == 0,
        range.proper(),
    ensures
        range.tiles_in_grid() == seq![Tile { x: 0, y: 0, z: 0 }],
{
    lemma2_to64();
    let inside = range.clamped();
    assert(inside.min_x == 0 && inside.min_y == 0 && inside.max_x == 0 && inside.max_y == 0);
    assert(inside.columns() == 1 && inside.rows() == 1);
    assert(inside.columns() * inside.rows() == 1);
    assert(inside.tiles() =~= seq![Tile { x: 0, y: 0, z: 0 }]);
}

/// The tiles of a range are exactly the tiles that it covers, each once.
pub proof fn lemma_range_tiles(range: TileRange)
    ensures
        range.tiles().len() == range.columns() * range.rows(),
        forall|k: int| 0 <= k < range.tiles().len() ==> range.covers(#[trigger] range.tiles()[k]),
        forall|tile: Tile|
            range.covers(tile) ==> exists|k: int|
                0 <= k < range.tiles().len() && #[trigger] range.tiles()[k] == tile,
        forall|j: int, k: int|
            0 <= j < k < range.tiles().len() ==> #[trigger] range.tiles()[j]
                != #[trigger] range.tiles()[k],
{
    let rows = range.rows() as int;
    let columns = range.columns() as int;
    let all = range.tiles();
    assert forall|k: int| 0 <= k < all.len() implies range.covers(#[trigger] all[k]) by {
        lemma_split(k, rows, columns);
    }
    assert forall|tile: Tile| range.covers(tile) implies exists|k: int|
        0 <= k < all.len() && #[trigger] all[k] == tile by {
        let column = tile.x - range.min_x;
        let row = tile.y - range.min_y;
        let k = column * rows + row;
        assert(0 <= k < columns * rows && k / rows == column && k % rows == row)
            by (nonlinear_arith)
            requires
                k == column * rows + row,
                0 <= row < rows,
                0 <= column < columns,
        ;
        assert(all[k] == tile);
    }
    assert forall|j: int, k: int| 0 <= j < k < all.len() implies #[trigger] all[j]
        != #[trigger] all[k] by {
        lemma_split(j, rows, columns);
        lemma_split(k, rows, columns);
        assert(j / rows != k / rows || j % rows != k % rows) by (nonlinear_arith)
            requires
                j < k,
                rows > 0,
                j == rows * (j / rows) + j % rows,
                k == rows * (k / rows) + k % rows,
        ;
    }
}

/// A place in a rectangle splits into its column and its row.
proof fn lemma_split(k: int, rows: int, columns: int)
    requires
        0 <= k < columns * rows,
        0 <= rows,
        0 <= columns,
    ensures
        rows > 0,
        0 <= k / rows < columns,
        0 <= k % rows < rows,
        k == rows * (k / rows) + k % rows,
{
    assert(rows > 0) by (nonlinear_arith)
        requires
            0 <= k < columns * rows,
            0 <= rows,
    ;
    assert(0 <= k / rows < columns && 0 <= k % rows < rows && k == rows * (k / rows) + k % rows)
        by (nonlinear_arith)
        requires
            0 <= k < columns * rows,
            rows > 0,
    ;
}

} // verus!
