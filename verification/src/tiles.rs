//! Geometry of the tile grid cut out of every sky image.
//!
//! A square image of side `image_width` holds a centred grid of
//! `grid_rows` x `grid_cols` tiles. The grid spans `grid_width_ratio` of the
//! image width; each tile's height is its width scaled by
//! `tile_aspect_ratio`. Ratios are exact fractions `num / den`, so every size
//! below is computed without rounding error: a scaled size is rounded up, as a
//! ceiling.

use vstd::prelude::*;
use vstd::arithmetic::div_mod::*;
use vstd::arithmetic::mul::*;

verus! {

/// An exact non-negative fraction `num / den`.
#[derive(Clone, Copy, Debug, PartialEq, Eq, Structural)]
pub struct Ratio {
    pub num: u32,
    pub den: u32,
}

impl Ratio {
    /// A ratio is usable when its denominator is not zero.
    pub open spec fn valid(self) -> bool {
        self.den > 0
    }
}

/// `ceil(a / b)` for a non-negative `a` and a positive `b`.
pub open spec fn ceil_div(a: int, b: int) -> int {
    (a + b - 1) / b
}

/// `ceil(v * r)`: a size scaled by a ratio, rounded up.
pub open spec fn scaled_up(v: int, r: Ratio) -> int {
    ceil_div(v * r.num, r.den as int)
}

/// A size converted to `u32`, saturating at `u32::MAX`.
pub open spec fn saturate(n: int) -> int {
    if n > u32::MAX {
        u32::MAX as int
    } else {
        n
    }
}

/// The parameters of the tile grid.
#[derive(Clone, Copy, Debug, PartialEq, Eq, Structural)]
pub struct TileConfig {
    /// Side of the (square) source image, in pixels.
    pub image_width: u32,
    /// Part of the image width that the grid spans; at most one.
    pub grid_width_ratio: Ratio,
    pub grid_cols: u32,
    pub grid_rows: u32,
    /// Width of an exported (downscaled) tile.
    pub export_tile_width: u32,
    /// Tile height over tile width.
    pub tile_aspect_ratio: Ratio,
}

/// Why a tile configuration is refused.
#[derive(Clone, Copy, Debug, PartialEq, Eq, Structural)]
pub enum TileConfigError {
    /// The grid's share of the image, split in `grid_cols`, is not wider than
    /// an exported tile: decrease `grid_cols`.
    TooManyTiles,
    /// `grid_width_ratio` is above one.
    RatioAboveOne,
    /// `grid_width_ratio` is zero.
    RatioNotPositive,
}

impl TileConfig {
    /// Both ratios have a non-zero denominator.
    pub open spec fn ratios_valid(self) -> bool {
        self.grid_width_ratio.valid() && self.tile_aspect_ratio.valid()
    }

    /// `image_width * grid_width_ratio / grid_cols > export_tile_width`,
    /// multiplied out.
    pub open spec fn wide_enough(self) -> bool {
        self.image_width * self.grid_width_ratio.num > self.export_tile_width
            * self.grid_width_ratio.den * self.grid_cols
    }

    /// The outcome of checking the configuration, in the order the checks run.
    pub open spec fn check_result(self) -> Result<(), TileConfigError> {
        if !self.wide_enough() {
            Err(TileConfigError::TooManyTiles)
        } else if self.grid_width_ratio.num > self.grid_width_ratio.den {
            Err(TileConfigError::RatioAboveOne)
        } else if self.grid_width_ratio.num == 0 {
            Err(TileConfigError::RatioNotPositive)
        } else {
            Ok(())
        }
    }

    pub open spec fn spec_grid_width(self) -> int {
        scaled_up(self.image_width as int, self.grid_width_ratio)
    }

    pub open spec fn spec_x_start(self) -> int {
        (self.image_width - self.spec_grid_width()) / 2
    }

    pub open spec fn spec_tile_width(self) -> int {
        self.spec_grid_width() / (self.grid_cols as int)
    }

    pub open spec fn spec_tile_height(self) -> int {
        saturate(scaled_up(self.spec_tile_width(), self.tile_aspect_ratio))
    }

    pub open spec fn spec_grid_height(self) -> int {
        self.spec_tile_height() * self.grid_rows
    }

    pub open spec fn spec_y_start(self) -> int {
        (self.image_width - self.spec_grid_height()) / 2
    }

    pub open spec fn spec_export_tile_height(self) -> int {
        saturate(scaled_up(self.export_tile_width as int, self.tile_aspect_ratio))
    }

    /// The grid layout that `layout` computes.
    pub open spec fn spec_layout(self) -> TileLayout {
        TileLayout {
            grid_width: self.spec_grid_width() as u32,
            x_start: self.spec_x_start() as u32,
            tile_width: self.spec_tile_width() as u32,
            tile_height: self.spec_tile_height() as u32,
            grid_height: self.spec_grid_height() as u32,
            y_start: self.spec_y_start() as u32,
            export_tile_height: self.spec_export_tile_height() as u32,
        }
    }

    /// The inputs on which the layout can be computed: an accepted
    /// configuration, at least one column, and a grid no taller than the
    /// image.
    pub open spec fn layout_defined(self) -> bool {
        &&& self.ratios_valid()
        &&& self.check_result() is Ok
        &&& self.grid_cols > 0
        &&& self.spec_grid_height() <= self.image_width
    }

    /// Every tile origin and tile index of the grid fits in `u32`.
    pub open spec fn plan_fits(self) -> bool {
        let l = self.spec_layout();
        &&& self.grid_rows * self.grid_cols <= usize::MAX
        &&& self.grid_rows > 0 ==> l.x_start + (self.grid_rows - 1) * l.tile_width <= u32::MAX
        &&& self.grid_cols > 0 ==> l.y_start + (self.grid_cols - 1) * l.tile_height <= u32::MAX
        &&& (self.grid_rows > 0 && self.grid_cols > 0) ==> (self.grid_rows - 1) * self.grid_rows
            + self.grid_cols - 1 <= u32::MAX
    }

    /// Checks the configuration: the tiles must be wider than an exported
    /// tile, and the grid ratio must lie in `(0, 1]`.
    pub fn check(&self) -> (res: Result<(), TileConfigError>)
        requires
            self.ratios_valid(),
        ensures
            res == self.check_result(),
    {
        proof {
            lemma_mul_upper_bound(self.image_width as int, u32::MAX as int,
                self.grid_width_ratio.num as int, u32::MAX as int);
        }
        let lhs: u128 = (self.image_width as u128) * (self.grid_width_ratio.num as u128);
        proof {
            lemma_mul_upper_bound(self.export_tile_width as int, u32::MAX as int,
                self.grid_width_ratio.den as int, u32::MAX as int);
        }
        let ed: u128 = (self.export_tile_width as u128) * (self.grid_width_ratio.den as u128);
        proof {
            lemma_mul_upper_bound(ed as int, 0x1_0000_0000_0000_0000int,
                self.grid_cols as int, u32::MAX as int);
        }
        let rhs: u128 = ed * (self.grid_cols as u128);
        if !(lhs > rhs) {
            Err(TileConfigError::TooManyTiles)
        } else if self.grid_width_ratio.num > self.grid_width_ratio.den {
            Err(TileConfigError::RatioAboveOne)
        } else if self.grid_width_ratio.num == 0 {
            Err(TileConfigError::RatioNotPositive)
        } else {
            Ok(())
        }
    }

    /// The layout, where it is defined: `None` for a refused configuration,
    /// no columns, or a grid taller than the image.
    pub fn layout_checked(&self) -> (l: Option<TileLayout>)
        requires
            self.ratios_valid(),
        ensures
            l is Some <==> self.layout_defined(),
            l matches Some(l) ==> l == self.spec_layout(),
    {
        if self.check().is_err() || self.grid_cols == 0 {
            return None;
        }
        proof {
            lemma_grid_width_bounded(self.image_width as int, self.grid_width_ratio);
        }
        let gw: u32 = scale_up_saturating(self.image_width, self.grid_width_ratio);
        let tile_width: u32 = gw / self.grid_cols;
        let tile_height: u32 = scale_up_saturating(tile_width, self.tile_aspect_ratio);
        proof {
            lemma_mul_upper_bound(tile_height as int, u32::MAX as int, self.grid_rows as int,
                u32::MAX as int);
        }
        if (tile_height as u64) * (self.grid_rows as u64) > self.image_width as u64 {
            return None;
        }
        Some(self.layout())
    }

    /// The plan, where every origin and index fits in `u32`.
    pub fn plan_checked(&self, l: &TileLayout) -> (tiles: Option<Vec<TileOrigin>>)
        requires
            self.layout_defined(),
            *l == self.spec_layout(),
        ensures
            tiles is Some <==> self.plan_fits(),
            tiles matches Some(tiles) ==> tiles.len() == self.grid_rows * self.grid_cols
                && forall|k: int|
                0 <= k < tiles.len() ==> #[trigger] tiles[k] == l.tile_at(
                    self.grid_rows,
                    k / (self.grid_cols as int),
                    k % (self.grid_cols as int),
                ),
    {
        let rows = self.grid_rows as u128;
        let cols = self.grid_cols as u128;
        proof {
            lemma_mul_upper_bound(rows as int, u32::MAX as int, cols as int, u32::MAX as int);
            lemma_mul_upper_bound(rows as int, u32::MAX as int, l.tile_width as int,
                u32::MAX as int);
            lemma_mul_upper_bound(cols as int, u32::MAX as int, l.tile_height as int,
                u32::MAX as int);
            lemma_mul_upper_bound(rows as int, u32::MAX as int, rows as int, u32::MAX as int);
        }
        if rows * cols > usize::MAX as u128 {
            return None;
        }
        if rows > 0 {
            proof {
                lemma_mul_inequality((rows - 1) as int, rows as int, l.tile_width as int);
            }
            if l.x_start as u128 + (rows - 1) * (l.tile_width as u128) > u32::MAX as u128 {
                return None;
            }
        }
        if cols > 0 {
            proof {
                lemma_mul_inequality((cols - 1) as int, cols as int, l.tile_height as int);
            }
            if l.y_start as u128 + (cols - 1) * (l.tile_height as u128) > u32::MAX as u128 {
                return None;
            }
        }
        if rows > 0 && cols > 0 {
            proof {
                lemma_mul_inequality((rows - 1) as int, rows as int, rows as int);
            }
            if (rows - 1) * rows + cols - 1 > u32::MAX as u128 {
                return None;
            }
        }
        Some(self.plan(l))
    }

    /// Computes where the grid and its tiles lie in the image.
    pub fn layout(&self) -> (l: TileLayout)
        requires
            self.layout_defined(),
        ensures
            l == self.spec_layout(),
    {
        proof {
            lemma_grid_width_bounded(self.image_width as int, self.grid_width_ratio);
        }
        let gw: u32 = scale_up_saturating(self.image_width, self.grid_width_ratio);
        let x_start: u32 = (self.image_width - gw) / 2;
        let tile_width: u32 = gw / self.grid_cols;
        let tile_height: u32 = scale_up_saturating(tile_width, self.tile_aspect_ratio);
        let grid_height: u32 = tile_height * self.grid_rows;
        let y_start: u32 = (self.image_width - grid_height) / 2;
        let export_tile_height: u32 = scale_up_saturating(
            self.export_tile_width,
            self.tile_aspect_ratio,
        );
        TileLayout {
            grid_width: gw,
            x_start,
            tile_width,
            tile_height,
            grid_height,
            y_start,
            export_tile_height,
        }
    }

    /// The origin and output index of every tile, row index outermost:
    /// entry `k` is the tile `(k / grid_cols, k % grid_cols)`.
    pub fn plan(&self, l: &TileLayout) -> (tiles: Vec<TileOrigin>)
        requires
            self.layout_defined(),
            *l == self.spec_layout(),
            self.plan_fits(),
        ensures
            tiles.len() == self.grid_rows * self.grid_cols,
            forall|k: int|
                0 <= k < tiles.len() ==> #[trigger] tiles[k] == l.tile_at(
                    self.grid_rows,
                    k / (self.grid_cols as int),
                    k % (self.grid_cols as int),
                ),
    {
        let rows = self.grid_rows;
        let cols = self.grid_cols;
        let mut tiles: Vec<TileOrigin> = Vec::new();
        let mut x: u32 = 0;
        while x < rows
            invariant
                x <= rows,
                rows == self.grid_rows,
                cols == self.grid_cols,
                cols > 0,
                *l == self.spec_layout(),
                self.plan_fits(),
                tiles.len() == x * cols,
                forall|k: int|
                    0 <= k < tiles.len() ==> #[trigger] tiles[k] == l.tile_at(
                        rows,
                        k / (cols as int),
                        k % (cols as int),
                    ),
            decreases rows - x,
        {
            proof {
                lemma_mul_inequality(x as int, (rows - 1) as int, l.tile_width as int);
                lemma_mul_inequality(x as int, (rows - 1) as int, rows as int);
            }
            let x_pos: u32 = l.x_start + x * l.tile_width;
            let mut y: u32 = 0;
            while y < cols
                invariant
                    x < rows,
                    y <= cols,
                    rows == self.grid_rows,
                    cols == self.grid_cols,
                    cols > 0,
                    *l == self.spec_layout(),
                    self.plan_fits(),
                    x_pos == l.x_start + x * l.tile_width,
                    x * rows <= (rows - 1) * rows,
                    tiles.len() == x * cols + y,
                    forall|k: int|
                        0 <= k < tiles.len() ==> #[trigger] tiles[k] == l.tile_at(
                            rows,
                            k / (cols as int),
                            k % (cols as int),
                        ),
                decreases cols - y,
            {
                proof {
                    lemma_mul_inequality(y as int, (cols - 1) as int, l.tile_height as int);
                }
                let y_pos: u32 = l.y_start + y * l.tile_height;
                let index: u32 = x * rows + y;
                let ghost k: int = tiles.len() as int;
                proof {
                    lemma_fundamental_div_mod_converse(k, cols as int, x as int, y as int);
                }
                tiles.push(TileOrigin { x: x_pos, y: y_pos, index });
                y = y + 1;
            }
            assert((x + 1) * cols == x * cols + cols) by (nonlinear_arith);
            x = x + 1;
        }
        tiles
    }
}

/// Where the grid lies in the image, and the size of its tiles.
#[derive(Clone, Copy, Debug, PartialEq, Eq, Structural)]
pub struct TileLayout {
    pub grid_width: u32,
    /// Left edge of the grid.
    pub x_start: u32,
    pub tile_width: u32,
    pub tile_height: u32,
    pub grid_height: u32,
    /// Top edge of the grid.
    pub y_start: u32,
    /// Height of an exported tile.
    pub export_tile_height: u32,
}

/// A tile's top-left corner and the index of the output it is written to.
#[derive(Clone, Copy, Debug, PartialEq, Eq, Structural)]
pub struct TileOrigin {
    pub x: u32,
    pub y: u32,
    pub index: u32,
}

impl TileLayout {
    /// The tile in grid position `(x, y)` of a grid with `rows` rows.
    pub open spec fn tile_at(self, rows: u32, x: int, y: int) -> TileOrigin {
        TileOrigin {
            x: (self.x_start + x * self.tile_width) as u32,
            y: (self.y_start + y * self.tile_height) as u32,
            index: (x * rows + y) as u32,
        }
    }
}

/// `ceil(v * r)` in `u32`, saturating.
fn scale_up_saturating(v: u32, r: Ratio) -> (res: u32)
    requires
        r.valid(),
    ensures
        res == saturate(scaled_up(v as int, r)),
{
    proof {
        lemma_mul_upper_bound(v as int, u32::MAX as int, r.num as int, u32::MAX as int);
    }
    let prod: u64 = (v as u64) * (r.num as u64);
    let q: u64 = (prod + (r.den as u64) - 1) / (r.den as u64);
    if q > u32::MAX as u64 {
        u32::MAX
    } else {
        q as u32
    }
}

/// A width scaled by a ratio of at most one, rounded up, is at most the width.
proof fn lemma_grid_width_bounded(w: int, r: Ratio)
    requires
        w >= 0,
        r.valid(),
        r.num <= r.den,
    ensures
        0 <= scaled_up(w, r) <= w,
{
    let d = r.den as int;
    lemma_mul_inequality(r.num as int, d, w);
    lemma_mul_is_commutative(r.num as int, w);
    lemma_mul_is_commutative(d, w);
    lemma_mul_nonnegative(w, r.num as int);
    // w * num + d - 1 < (w + 1) * d
    lemma_mul_is_distributive_add(d, w, 1);
    lemma_div_by_multiple_is_strongly_ordered(w * r.num + d - 1, (w + 1) * d, w + 1, d);
    lemma_div_by_multiple(w + 1, d);
    lemma_div_pos_is_pos(w * r.num + d - 1, d);
}

/// The layout's sizes are those of the specification, read back without
/// truncation: each lies in `u32`.
proof fn lemma_layout_fits(c: TileConfig)
    requires
        c.layout_defined(),
    ensures
        0 <= c.spec_grid_width() <= c.image_width,
        0 <= c.spec_tile_width() <= c.spec_grid_width(),
        c.spec_tile_width() * c.grid_cols <= c.spec_grid_width(),
        0 <= c.spec_tile_height() <= u32::MAX,
        0 <= c.spec_grid_height() <= c.image_width,
        0 <= c.spec_x_start(),
        c.spec_x_start() + c.spec_grid_width() <= c.image_width,
        0 <= c.spec_y_start(),
        c.spec_y_start() + c.spec_grid_height() <= c.image_width,
        c.spec_layout().grid_width == c.spec_grid_width(),
        c.spec_layout().x_start == c.spec_x_start(),
        c.spec_layout().tile_width == c.spec_tile_width(),
        c.spec_layout().tile_height == c.spec_tile_height(),
        c.spec_layout().y_start == c.spec_y_start(),
{
    lemma_grid_width_bounded(c.image_width as int, c.grid_width_ratio);
    let gw = c.spec_grid_width();
    let cols = c.grid_cols as int;
    lemma_div_pos_is_pos(gw, cols);
    lemma_fundamental_div_mod(gw, cols);
    lemma_mul_is_commutative(cols, gw / cols);
    lemma_div_is_ordered_by_denominator(gw, 1, cols);
    let tw = c.spec_tile_width();
    lemma_mul_nonnegative(tw, c.tile_aspect_ratio.num as int);
    lemma_div_pos_is_pos(tw * c.tile_aspect_ratio.num + c.tile_aspect_ratio.den - 1,
        c.tile_aspect_ratio.den as int);
    lemma_mul_nonnegative(c.spec_tile_height(), c.grid_rows as int);
}

/// Law: tiles are never upscaled. An accepted configuration makes every
/// tile at least as wide as an exported tile.
pub proof fn law_tiles_not_upscaled(c: TileConfig)
    requires
        c.ratios_valid(),
        c.check_result() is Ok,
        c.grid_cols > 0,
    ensures
        c.spec_tile_width() >= c.export_tile_width,
{
    let w = c.image_width as int;
    let r = c.grid_width_ratio;
    let d = r.den as int;
    let cols = c.grid_cols as int;
    let e = c.export_tile_width as int;
    let gw = c.spec_grid_width();
    // gw * d >= w * num > e * d * cols, so gw > e * cols.
    lemma_fundamental_div_mod(w * r.num + d - 1, d);
    lemma_mod_bound(w * r.num + d - 1, d);
    assert(gw * d >= w * r.num) by (nonlinear_arith)
        requires
            w * r.num + d - 1 == d * gw + (w * r.num + d - 1) % d,
            (w * r.num + d - 1) % d < d,
            d > 0;
    assert(gw > e * cols) by (nonlinear_arith)
        requires
            gw * d >= w * r.num,
            w * r.num > e * d * cols,
            d > 0;
    lemma_multiply_divide_le(e * cols, cols, e);
    lemma_mul_is_commutative(e, cols);
    lemma_div_by_multiple(e, cols);
    lemma_div_is_ordered(e * cols, gw, cols);
}

/// Law: on a square grid every tile lies inside the image.
pub proof fn law_tiles_inside_image(c: TileConfig, x: int, y: int)
    requires
        c.layout_defined(),
        c.grid_rows == c.grid_cols,
        0 <= x < c.grid_rows,
        0 <= y < c.grid_cols,
    ensures
        c.spec_layout().tile_at(c.grid_rows, x, y).x + c.spec_layout().tile_width
            <= c.image_width,
        c.spec_layout().tile_at(c.grid_rows, x, y).y + c.spec_layout().tile_height
            <= c.image_width,
{
    lemma_layout_fits(c);
    let n = c.grid_rows as int;
    let tw = c.spec_tile_width();
    let th = c.spec_tile_height();
    lemma_mul_inequality(x + 1, n, tw);
    lemma_mul_inequality(y + 1, n, th);
    lemma_mul_is_commutative(n, tw);
    assert(x * tw + tw == (x + 1) * tw) by (nonlinear_arith);
    assert(y * th + th == (y + 1) * th) by (nonlinear_arith);
    lemma_mul_nonnegative(x, tw);
    lemma_mul_nonnegative(y, th);
}

/// Law: two different grid positions give tiles that do not overlap.
pub proof fn law_tiles_disjoint(c: TileConfig, x1: int, y1: int, x2: int, y2: int)
    requires
        c.layout_defined(),
        c.plan_fits(),
        0 <= x1 < c.grid_rows,
        0 <= x2 < c.grid_rows,
        0 <= y1 < c.grid_cols,
        0 <= y2 < c.grid_cols,
        x1 != x2 || y1 != y2,
    ensures
        ({
            let l = c.spec_layout();
            let a = l.tile_at(c.grid_rows, x1, y1);
            let b = l.tile_at(c.grid_rows, x2, y2);
            ||| a.x + l.tile_width <= b.x
            ||| b.x + l.tile_width <= a.x
            ||| a.y + l.tile_height <= b.y
            ||| b.y + l.tile_height <= a.y
        }),
{
    lemma_layout_fits(c);
    let l = c.spec_layout();
    let tw = l.tile_width as int;
    let th = l.tile_height as int;
    lemma_tile_origin_fits(c, x1, y1);
    lemma_tile_origin_fits(c, x2, y2);
    if x1 < x2 {
        lemma_mul_inequality(x1 + 1, x2, tw);
        assert(x1 * tw + tw == (x1 + 1) * tw) by (nonlinear_arith);
    } else if x2 < x1 {
        lemma_mul_inequality(x2 + 1, x1, tw);
        assert(x2 * tw + tw == (x2 + 1) * tw) by (nonlinear_arith);
    } else if y1 < y2 {
        lemma_mul_inequality(y1 + 1, y2, th);
        assert(y1 * th + th == (y1 + 1) * th) by (nonlinear_arith);
    } else {
        lemma_mul_inequality(y2 + 1, y1, th);
        assert(y2 * th + th == (y2 + 1) * th) by (nonlinear_arith);
    }
}

/// A planned tile's origin and index are read back without truncation.
proof fn lemma_tile_origin_fits(c: TileConfig, x: int, y: int)
    requires
        c.layout_defined(),
        c.plan_fits(),
        0 <= x < c.grid_rows,
        0 <= y < c.grid_cols,
    ensures
        ({
            let l = c.spec_layout();
            let t = l.tile_at(c.grid_rows, x, y);
            &&& t.x == l.x_start + x * l.tile_width
            &&& t.y == l.y_start + y * l.tile_height
            &&& t.index == x * c.grid_rows + y
        }),
{
    let l = c.spec_layout();
    lemma_mul_inequality(x, c.grid_rows - 1, l.tile_width as int);
    lemma_mul_inequality(y, c.grid_cols - 1, l.tile_height as int);
    lemma_mul_inequality(x, c.grid_rows - 1, c.grid_rows as int);
    lemma_mul_nonnegative(x, l.tile_width as int);
    lemma_mul_nonnegative(y, l.tile_height as int);
    lemma_mul_nonnegative(x, c.grid_rows as int);
}

/// Law: on a square grid the tile indices are pairwise distinct and each
/// names one of the `grid_rows * grid_cols` outputs.
pub proof fn law_tile_indices(c: TileConfig, x1: int, y1: int, x2: int, y2: int)
    requires
        c.layout_defined(),
        c.plan_fits(),
        c.grid_rows == c.grid_cols,
        0 <= x1 < c.grid_rows,
        0 <= x2 < c.grid_rows,
        0 <= y1 < c.grid_cols,
        0 <= y2 < c.grid_cols,
    ensures
        ({
            let l = c.spec_layout();
            let a = l.tile_at(c.grid_rows, x1, y1);
            let b = l.tile_at(c.grid_rows, x2, y2);
            &&& a.index < c.grid_rows * c.grid_cols
            &&& (a.index == b.index ==> x1 == x2 && y1 == y2)
        }),
{
    lemma_tile_origin_fits(c, x1, y1);
    lemma_tile_origin_fits(c, x2, y2);
    let n = c.grid_rows as int;
    lemma_fundamental_div_mod_converse(x1 * n + y1, n, x1, y1);
    lemma_fundamental_div_mod_converse(x2 * n + y2, n, x2, y2);
    lemma_mul_inequality(x1 + 1, n, n);
    assert(x1 * n + n == (x1 + 1) * n) by (nonlinear_arith);
}

/// Law: the layout is defined exactly for an accepted configuration with at
/// least one column whose grid (rows of tiles of the scaled-up height) is no
/// taller than the image.
pub proof fn law_layout_defined_iff_grid_fits_image(c: TileConfig)
    requires
        c.ratios_valid(),
    ensures
        c.layout_defined() <==> ({
            let gw = scaled_up(c.image_width as int, c.grid_width_ratio);
            let tw = gw / (c.grid_cols as int);
            let th = saturate(scaled_up(tw, c.tile_aspect_ratio));
            &&& c.check_result() is Ok
            &&& c.grid_cols > 0
            &&& th * c.grid_rows <= c.image_width
        }),
{
}

/// Left edge of the tiles in grid row `x`.
pub open spec fn column_origin(l: TileLayout, x: int) -> int {
    l.x_start + x * l.tile_width
}

/// Top edge of the tiles in grid column `y`.
pub open spec fn row_origin(l: TileLayout, y: int) -> int {
    l.y_start + y * l.tile_height
}

/// Output index of the tile at grid position `(x, y)`.
pub open spec fn output_index(rows: int, x: int, y: int) -> int {
    x * rows + y
}

/// Law: the plan fits exactly when every tile origin and every output index
/// fits in `u32`, and the tile count in `usize`.
pub proof fn law_plan_fits_iff_no_overflow(c: TileConfig)
    requires
        c.layout_defined(),
    ensures
        c.plan_fits() <==> ({
            let l = c.spec_layout();
            let rows = c.grid_rows as int;
            let cols = c.grid_cols as int;
            &&& rows * cols <= usize::MAX
            &&& forall|x: int| 0 <= x < rows ==> #[trigger] column_origin(l, x) <= u32::MAX
            &&& forall|y: int| 0 <= y < cols ==> #[trigger] row_origin(l, y) <= u32::MAX
            &&& forall|x: int, y: int|
                0 <= x < rows && 0 <= y < cols ==> #[trigger] output_index(rows, x, y)
                    <= u32::MAX
        }),
{
    let l = c.spec_layout();
    let rows = c.grid_rows as int;
    let cols = c.grid_cols as int;
    if c.plan_fits() {
        assert forall|x: int| 0 <= x < rows implies #[trigger] column_origin(l, x)
            <= u32::MAX by {
            lemma_mul_inequality(x, rows - 1, l.tile_width as int);
        }
        assert forall|y: int| 0 <= y < cols implies #[trigger] row_origin(l, y) <= u32::MAX by {
            lemma_mul_inequality(y, cols - 1, l.tile_height as int);
        }
        assert forall|x: int, y: int| 0 <= x < rows && 0 <= y < cols implies #[trigger] output_index(
            rows,
            x,
            y,
        ) <= u32::MAX by {
            lemma_mul_inequality(x, rows - 1, rows);
        }
    } else {
        if rows > 0 {
            assert(column_origin(l, rows - 1) == l.x_start + (rows - 1) * l.tile_width);
        }
        if cols > 0 {
            assert(row_origin(l, cols - 1) == l.y_start + (cols - 1) * l.tile_height);
        }
        if rows > 0 && cols > 0 {
            assert(output_index(rows, rows - 1, cols - 1) == (rows - 1) * rows + cols - 1);
        }
    }
}

/// Law: a square grid whose layout is defined can always be planned when its
/// tile count fits: every origin lies inside the image, so only the output
/// indices can overflow.
pub proof fn law_square_plan_fits(c: TileConfig)
    requires
        c.layout_defined(),
        c.grid_rows == c.grid_cols,
        c.grid_rows * c.grid_cols <= usize::MAX,
        c.grid_rows * c.grid_cols <= u32::MAX + 1,
    ensures
        c.plan_fits(),
{
    lemma_layout_fits(c);
    let n = c.grid_rows as int;
    let l = c.spec_layout();
    if n > 0 {
        law_tiles_inside_image(c, n - 1, n - 1);
        lemma_tile_origin_fits_square(c);
        assert((n - 1) * n + n - 1 == n * n - 1) by (nonlinear_arith);
    }
}

/// On a square grid the last tile's origin is read back exactly.
proof fn lemma_tile_origin_fits_square(c: TileConfig)
    requires
        c.layout_defined(),
        c.grid_rows == c.grid_cols,
        c.grid_rows > 0,
    ensures
        ({
            let l = c.spec_layout();
            let n = c.grid_rows as int;
            &&& l.x_start + (n - 1) * l.tile_width + l.tile_width <= c.image_width
            &&& l.y_start + (n - 1) * l.tile_height + l.tile_height <= c.image_width
        }),
{
    lemma_layout_fits(c);
    let n = c.grid_rows as int;
    let tw = c.spec_tile_width();
    let th = c.spec_tile_height();
    lemma_mul_is_commutative(n, tw);
    assert((n - 1) * tw + tw == n * tw) by (nonlinear_arith);
    assert((n - 1) * th + th == n * th) by (nonlinear_arith);
}

} // verus!
