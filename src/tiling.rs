use vstd::prelude::*;

use crate::geometry::Size;

verus! {

/// The tile grid of a document: how many tiles across and down, and by how
/// much the last column and row overhang the canvas.
#[derive(Debug, Clone, Copy, PartialEq, Eq)]
pub struct TilingMeta {
    pub columns: u32,
    pub rows: u32,
    pub diff: Size,
    pub tile_size: u32,
}

/// The number of tiles of side `t` that cover `len` pixels.
pub open spec fn tiles_for(len: int, t: int) -> int {
    (len + t - 1) / t
}

impl TilingMeta {
    /// The grid is that of a canvas of `size` cut in tiles of side `tile_size`.
    pub open spec fn describes(&self, size: Size, tile_size: u32) -> bool {
        &&& self.tile_size == tile_size
        &&& self.columns as int == tiles_for(size.width as int, tile_size as int)
        &&& self.rows as int == tiles_for(size.height as int, tile_size as int)
        &&& self.diff.width as int == self.columns as int * tile_size as int - size.width as int
        &&& self.diff.height as int == self.rows as int * tile_size as int - size.height as int
    }

    /// The width of the tile in column `col`: clipped in the last column.
    pub open spec fn spec_tile_width(&self, col: u32) -> int {
        if col as int == self.columns as int - 1 {
            self.tile_size as int - self.diff.width as int
        } else {
            self.tile_size as int
        }
    }

    /// The height of the tile in row `row`: clipped in the last row.
    pub open spec fn spec_tile_height(&self, row: u32) -> int {
        if row as int == self.rows as int - 1 {
            self.tile_size as int - self.diff.height as int
        } else {
            self.tile_size as int
        }
    }

    /// Plans the tile grid of a canvas of `size` with tiles of side `tile_size`.
    ///
    /// There are `⌈W/T⌉` columns and `⌈H/T⌉` rows, and each overhang is less
    /// than a tile.
    pub fn new(size: Size, tile_size: u32) -> (r: TilingMeta)
        requires
            tile_size >= 1,
        ensures
            r.describes(size, tile_size),
            0 <= r.diff.width < tile_size,
            0 <= r.diff.height < tile_size,
    {
        proof {
            lemma_tiles(size.width as int, tile_size as int);
            lemma_tiles(size.height as int, tile_size as int);
        }
        let columns = size.width / tile_size + if size.width % tile_size == 0 { 0 } else { 1 };
        let rows = size.height / tile_size + if size.height % tile_size == 0 { 0 } else { 1 };
        let t = tile_size as u64;
        let dw = (columns as u64 * t - size.width as u64) as u32;
        let dh = (rows as u64 * t - size.height as u64) as u32;
        TilingMeta { columns, rows, diff: Size { width: dw, height: dh }, tile_size }
    }

    /// The width and height of the tile at `(col, row)`.
    ///
    /// A tile is a full `tile_size` wide exactly when it is not in the last
    /// column, and the last column is `tile_size - diff.width` wide; the same
    /// holds of heights and rows.
    pub fn tile_extent(&self, col: u32, row: u32) -> (r: (u32, u32))
        requires
            self.diff.width <= self.tile_size,
            self.diff.height <= self.tile_size,
            col < self.columns,
            row < self.rows,
        ensures
            r.0 == self.spec_tile_width(col),
            r.1 == self.spec_tile_height(row),
            (r.0 == self.tile_size) <==> (col < self.columns - 1 || self.diff.width == 0),
            (r.1 == self.tile_size) <==> (row < self.rows - 1 || self.diff.height == 0),
    {
        let w = self.tile_size - if col != self.columns - 1 { 0 } else { self.diff.width };
        let h = self.tile_size - if row != self.rows - 1 { 0 } else { self.diff.height };
        (w, h)
    }
}

/// The quotient and remainder that `new` computes spell `⌈len / t⌉`, and the
/// overhang is below one tile.
proof fn lemma_tiles(len: int, t: int)
    requires
        0 <= len <= u32::MAX,
        t >= 1,
        t <= u32::MAX,
    ensures
        tiles_for(len, t) == len / t + if len % t == 0 { 0int } else { 1int },
        0 <= tiles_for(len, t) * t - len < t,
        tiles_for(len, t) <= u32::MAX,
        tiles_for(len, t) * t <= u64::MAX,
{
    let q = len / t;
    let m = len % t;
    assert(len == q * t + m && 0 <= m < t) by (nonlinear_arith)
        requires t >= 1, q == len / t, m == len % t, len >= 0;
    if m == 0 {
        assert((len + t - 1) / t == q) by (nonlinear_arith)
            requires len == q * t, t >= 1, q >= 0;
    } else {
        assert((len + t - 1) / t == q + 1) by (nonlinear_arith)
            requires len == q * t + m, 0 < m < t, q >= 0;
    }
    let c = tiles_for(len, t);
    assert(0 <= c * t - len < t) by (nonlinear_arith)
        requires len == q * t + m, 0 <= m < t, c == q + if m == 0 { 0int } else { 1int };
    assert(c <= len + 1) by (nonlinear_arith)
        requires len == q * t + m, 0 <= m < t, t >= 1, c == q + if m == 0 { 0int } else { 1int }, q >= 0;
    assert(c <= u32::MAX) by (nonlinear_arith)
        requires len == q * t + m, 0 <= m < t, t >= 1, c == q + if m == 0 { 0int } else { 1int }, q >= 0, len <= u32::MAX;
}

} // verus!
