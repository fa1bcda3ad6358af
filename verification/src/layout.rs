//! Exact pixel geometry of the grid.
//!
//! Every coordinate the layout produces is an exact rational number of
//! pixels, represented as a [`Frac`] (numerator over positive denominator).
//! For a surface of width `w`, an outer margin `om` (surface edge to grid)
//! and an inner margin `im` (between adjacent cells), a row of `n >= 1` cells
//! has square cells of side
//!
//! ```text
//! (w - 2*om - (n - 1)*im) / n
//! ```
//!
//! so every row independently fills the full usable width: rows of different
//! lengths have cells of different sizes, by design. The horizontal cursor
//! starts at `om` for each row and advances by one cell side plus `im` per
//! cell; the vertical cursor starts at `om` and advances by the finished
//! row's cell side plus `im`. Nothing checks that the grid's total height
//! fits the surface: overflow past its bottom edge is a known limitation of
//! the design, not an error.
//!
//! A row of length zero contributes no cells and does not advance the
//! vertical cursor (it is visually absent).
//!
//! The vertical coordinate of row `i` is kept as one fraction whose
//! denominator is the product of the lengths of the earlier (non-empty)
//! rows; the bounds [`MAX_DIM`], [`MAX_ROWS`], [`MAX_ROW_LEN`] and
//! [`MAX_DEN`] (see [`fits`]) guarantee that every numerator and denominator
//! fits in a `u128`.

use vstd::prelude::*;

verus! {

/// Largest accepted pixel quantity (surface width or margin).
pub const MAX_DIM: u64 = 0x10_0000;

/// Largest accepted number of rows.
pub const MAX_ROWS: usize = 0x1000;

/// Largest accepted length of a single row.
pub const MAX_ROW_LEN: usize = 0x1_0000;

/// Largest accepted product of the positive row lengths — the common
/// denominator of the exact vertical coordinates.
pub const MAX_DEN: u128 = 0xFFFF_FFFF_FFFF_FFFF;

/// An exact nonnegative rational number of pixels: `num / den`.
#[derive(Clone, Copy, Debug, PartialEq, Eq, Structural)]
pub struct Frac {
    pub num: u128,
    pub den: u128,
}

impl Frac {
    /// A fraction is well formed when its denominator is positive.
    pub open spec fn wf(self) -> bool {
        self.den >= 1
    }
}

/// An axis-aligned square on the surface: origin `(x, y)`, side `side`.
#[derive(Clone, Copy, Debug, PartialEq, Eq, Structural)]
pub struct Rect {
    pub x: Frac,
    pub y: Frac,
    pub side: Frac,
}

/// Width left for the `n` cells of a row once both outer margins and the
/// `n - 1` inner margins are taken out.
pub open spec fn usable_width(w: int, om: int, im: int, n: int) -> int {
    w - 2 * om - (n - 1) * im
}

/// Product of the positive lengths among the first `i` rows: the common
/// denominator of the exact vertical coordinate of row `i`.
pub open spec fn pos_prod(sizes: Seq<usize>, i: int) -> int
    decreases i,
{
    if i <= 0 {
        1
    } else {
        pos_prod(sizes, i - 1) * (if sizes[i - 1] >= 1 {
            sizes[i - 1] as int
        } else {
            1
        })
    }
}

/// Numerator of the exact vertical coordinate of row `i`, over the
/// denominator `pos_prod(sizes, i)`.
pub open spec fn y_num(sizes: Seq<usize>, w: int, om: int, im: int, i: int) -> int
    decreases i,
{
    if i <= 0 {
        om
    } else {
        let n = sizes[i - 1] as int;
        if n == 0 {
            y_num(sizes, w, om, im, i - 1)
        } else {
            y_num(sizes, w, om, im, i - 1) * n + (im * n + usable_width(w, om, im, n)) * pos_prod(
                sizes,
                i - 1,
            )
        }
    }
}

/// Numerator of the exact horizontal coordinate of the cell at column `j` of
/// a row of length `n`, over the denominator `n`: the value is
/// `om + j*im + j*(usable/n)`.
pub open spec fn x_num(w: int, om: int, im: int, n: int, j: int) -> int {
    (om + j * im) * n + j * usable_width(w, om, im, n)
}

/// Number of cells in the first `i` rows; the index of the first cell of row
/// `i` in a row-major enumeration of the whole grid.
pub open spec fn total_cells(sizes: Seq<usize>, i: int) -> int
    decreases i,
{
    if i <= 0 {
        0
    } else {
        total_cells(sizes, i - 1) + sizes[i - 1]
    }
}

/// The exact square of the cell at row `i`, column `j`.
pub open spec fn spec_rect(sizes: Seq<usize>, w: int, om: int, im: int, i: int, j: int) -> Rect {
    let n = sizes[i] as int;
    Rect {
        x: Frac { num: x_num(w, om, im, n, j) as u128, den: n as u128 },
        y: Frac { num: y_num(sizes, w, om, im, i) as u128, den: pos_prod(sizes, i) as u128 },
        side: Frac { num: usable_width(w, om, im, n) as u128, den: n as u128 },
    }
}

/// The inputs a layout accepts: pixel quantities and row counts bounded so
/// that every exact coordinate fits in a `u128`, and — for every non-empty
/// row — margins that leave a nonnegative usable width.
pub open spec fn fits(sizes: Seq<usize>, w: int, om: int, im: int) -> bool {
    &&& 0 <= w <= MAX_DIM as int
    &&& 0 <= om <= MAX_DIM as int
    &&& 0 <= im <= MAX_DIM as int
    &&& sizes.len() <= MAX_ROWS as int
    &&& forall|i: int| 0 <= i < sizes.len() ==> (#[trigger] sizes[i]) <= MAX_ROW_LEN
    &&& forall|i: int|
        0 <= i < sizes.len() && (#[trigger] sizes[i]) >= 1 ==> 2 * om + (sizes[i] as int - 1) * im
            <= w
    &&& pos_prod(sizes, sizes.len() as int) <= MAX_DEN as int
}

/// The denominator of a vertical coordinate is always positive.
pub proof fn lemma_pos_prod_pos(sizes: Seq<usize>, i: int)
    requires
        0 <= i,
    ensures
        pos_prod(sizes, i) >= 1,
    decreases i,
{
    if i > 0 {
        lemma_pos_prod_pos(sizes, i - 1);
        let f: int = if sizes[i - 1] >= 1 {
            sizes[i - 1] as int
        } else {
            1
        };
        assert(pos_prod(sizes, i - 1) * f >= 1) by (nonlinear_arith)
            requires
                pos_prod(sizes, i - 1) >= 1,
                f >= 1;
    }
}

/// The denominators grow (weakly) with the row index.
pub proof fn lemma_pos_prod_mono(sizes: Seq<usize>, i: int, j: int)
    requires
        0 <= i <= j,
    ensures
        pos_prod(sizes, i) <= pos_prod(sizes, j),
    decreases j - i,
{
    if i < j {
        lemma_pos_prod_mono(sizes, i, j - 1);
        lemma_pos_prod_pos(sizes, j - 1);
        let f: int = if sizes[j - 1] >= 1 {
            sizes[j - 1] as int
        } else {
            1
        };
        assert(pos_prod(sizes, j - 1) * f >= pos_prod(sizes, j - 1)) by (nonlinear_arith)
            requires
                pos_prod(sizes, j - 1) >= 1,
                f >= 1;
    }
}

/// The vertical numerator of row `i` is nonnegative and at most
/// `(om + i*(im + w)) * pos_prod(sizes, i)` — the vertical coordinate itself
/// never exceeds `om + i*(im + w)`.
pub proof fn lemma_y_num_bound(sizes: Seq<usize>, w: int, om: int, im: int, i: int)
    requires
        0 <= i <= sizes.len(),
        fits(sizes, w, om, im),
    ensures
        0 <= y_num(sizes, w, om, im, i),
        y_num(sizes, w, om, im, i) <= (om + i * (im + w)) * pos_prod(sizes, i),
    decreases i,
{
    if i == 0 {
        assert(y_num(sizes, w, om, im, 0) == om);
        assert(om <= (om + 0 * (im + w)) * 1);
    } else {
        lemma_y_num_bound(sizes, w, om, im, i - 1);
        lemma_pos_prod_pos(sizes, i - 1);
        let n = sizes[i - 1] as int;
        let p = pos_prod(sizes, i - 1);
        let prev = y_num(sizes, w, om, im, i - 1);
        if n == 0 {
            assert(pos_prod(sizes, i) == p * 1);
            assert((om + (i - 1) * (im + w)) * p <= (om + i * (im + w)) * p) by (nonlinear_arith)
                requires
                    p >= 1,
                    im >= 0,
                    w >= 0;
        } else {
            let u = usable_width(w, om, im, n);
            assert(2 * om + (n - 1) * im <= w);
            assert(u >= 0);
            assert(u <= w) by (nonlinear_arith)
                requires
                    u == w - 2 * om - (n - 1) * im,
                    om >= 0,
                    im >= 0,
                    n >= 1;
            assert(pos_prod(sizes, i) == p * n);
            assert(y_num(sizes, w, om, im, i) == prev * n + (im * n + u) * p);
            assert(prev * n + (im * n + u) * p >= 0) by (nonlinear_arith)
                requires
                    prev >= 0,
                    n >= 1,
                    p >= 1,
                    im >= 0,
                    u >= 0;
            assert(prev * n + (im * n + u) * p <= (om + i * (im + w)) * (p * n))
                by (nonlinear_arith)
                requires
                    prev >= 0,
                    n >= 1,
                    p >= 1,
                    0 <= u <= w,
                    im >= 0,
                    w >= 0,
                    om >= 0,
                    i >= 1,
                    prev <= (om + (i - 1) * (im + w)) * p;
        }
    }
}

/// Decides [`fits`] at run time: whether the given surface width, margins
/// and row lengths are within the bounds the exact layout can represent.
pub fn layout_fits(row_sizes: &Vec<usize>, w: u64, om: u64, im: u64) -> (b: bool)
    ensures
        b == fits(row_sizes@, w as int, om as int, im as int),
{
    if w > MAX_DIM || om > MAX_DIM || im > MAX_DIM {
        return false;
    }
    if row_sizes.len() > MAX_ROWS {
        return false;
    }
    let mut den: u128 = 1;
    let mut i: usize = 0;
    while i < row_sizes.len()
        invariant
            i <= row_sizes@.len(),
            w <= MAX_DIM,
            om <= MAX_DIM,
            im <= MAX_DIM,
            row_sizes@.len() <= MAX_ROWS,
            den as int == pos_prod(row_sizes@, i as int),
            den <= MAX_DEN,
            forall|k: int| 0 <= k < i ==> (#[trigger] row_sizes@[k]) <= MAX_ROW_LEN,
            forall|k: int|
                0 <= k < i && (#[trigger] row_sizes@[k]) >= 1 ==> 2 * (om as int) + (
                row_sizes@[k] as int - 1) * (im as int) <= w as int,
        decreases row_sizes@.len() - i,
    {
        let n = row_sizes[i];
        if n > MAX_ROW_LEN {
            return false;
        }
        if n >= 1 {
            proof {
                assert(((n as int) - 1) * (im as int) <= 0x10_0000_0000) by (nonlinear_arith)
                    requires
                        0 <= (n as int) - 1 <= 0x1_0000,
                        0 <= (im as int) <= 0x10_0000;
                assert(((n as int) - 1) * (im as int) >= 0) by (nonlinear_arith)
                    requires
                        n as int >= 1,
                        im as int >= 0;
            }
            let needed: u128 = 2 * (om as u128) + ((n as u128) - 1) * (im as u128);
            if needed > w as u128 {
                proof {
                    if fits(row_sizes@, w as int, om as int, im as int) {
                        assert(2 * (om as int) + (row_sizes@[i as int] as int - 1) * (im as int)
                            <= w as int);
                    }
                }
                return false;
            }
            proof {
                assert((den as int) * (n as int) <= 0xFFFF_FFFF_FFFF_FFFF * 0x1_0000)
                    by (nonlinear_arith)
                    requires
                        0 <= den as int <= 0xFFFF_FFFF_FFFF_FFFF,
                        0 <= n as int <= 0x1_0000;
                assert(pos_prod(row_sizes@, i as int + 1) == pos_prod(row_sizes@, i as int) * (
                n as int));
            }
            den = den * (n as u128);
            if den > MAX_DEN {
                proof {
                    lemma_pos_prod_mono(row_sizes@, i as int + 1, row_sizes@.len() as int);
                }
                return false;
            }
        } else {
            proof {
                assert(pos_prod(row_sizes@, i as int + 1) == pos_prod(row_sizes@, i as int) * 1);
            }
        }
        i += 1;
    }
    true
}

/// Row-major cell indices grow (weakly) with the row index.
pub proof fn lemma_total_cells_mono(sizes: Seq<usize>, i: int, j: int)
    requires
        0 <= i <= j,
    ensures
        total_cells(sizes, i) <= total_cells(sizes, j),
    decreases j - i,
{
    if i < j {
        lemma_total_cells_mono(sizes, i, j - 1);
    }
}

/// Every row-major index below `total_cells(sizes, m)` is the index of
/// exactly one cell: this returns its row and column.
pub proof fn lemma_cell_at_index(sizes: Seq<usize>, m: int, k: int) -> (r: (int, int))
    requires
        0 <= m <= sizes.len(),
        0 <= k < total_cells(sizes, m),
    ensures
        0 <= r.0 < m,
        0 <= r.1 < sizes[r.0],
        k == total_cells(sizes, r.0) + r.1,
    decreases m,
{
    assert(total_cells(sizes, 0) == 0);
    assert(m >= 1);
    assert(total_cells(sizes, m) == total_cells(sizes, m - 1) + sizes[m - 1]);
    if k >= total_cells(sizes, m - 1) {
        (m - 1, k - total_cells(sizes, m - 1))
    } else {
        lemma_cell_at_index(sizes, m - 1, k)
    }
}

/// Everything needed to advance the vertical coordinate past a non-empty row
/// `i` exactly, with every intermediate value provably inside `u128`.
pub proof fn lemma_row_step(sizes: Seq<usize>, w: int, om: int, im: int, i: int)
    requires
        fits(sizes, w, om, im),
        0 <= i < sizes.len(),
        sizes[i] >= 1,
    ensures
        pos_prod(sizes, i + 1) == pos_prod(sizes, i) * (sizes[i] as int),
        1 <= pos_prod(sizes, i),
        1 <= pos_prod(sizes, i + 1) <= MAX_DEN as int,
        0 <= 2 * om <= w,
        0 <= (sizes[i] as int - 1) * im <= w - 2 * om,
        0 <= usable_width(w, om, im, sizes[i] as int) <= w,
        0 <= im * (sizes[i] as int) <= 0x10_0000_0000,
        y_num(sizes, w, om, im, i + 1) == y_num(sizes, w, om, im, i) * (sizes[i] as int) + (im * (
        sizes[i] as int) + usable_width(w, om, im, sizes[i] as int)) * pos_prod(sizes, i),
        0 <= y_num(sizes, w, om, im, i) * (sizes[i] as int),
        0 <= (im * (sizes[i] as int) + usable_width(w, om, im, sizes[i] as int)) * pos_prod(
            sizes,
            i,
        ),
        y_num(sizes, w, om, im, i + 1) <= u128::MAX as int,
{
    let n = sizes[i] as int;
    let p = pos_prod(sizes, i);
    lemma_pos_prod_pos(sizes, i);
    lemma_pos_prod_pos(sizes, i + 1);
    lemma_pos_prod_mono(sizes, i + 1, sizes.len() as int);
    assert(pos_prod(sizes, i + 1) == p * n);
    assert(2 * om + (n - 1) * im <= w);
    assert(sizes[i] <= MAX_ROW_LEN);
    assert((n - 1) * im >= 0) by (nonlinear_arith)
        requires
            n >= 1,
            im >= 0;
    let u = usable_width(w, om, im, n);
    assert(im * n <= 0x10_0000_0000) by (nonlinear_arith)
        requires
            0 <= im <= 0x10_0000,
            0 <= n <= 0x1_0000;
    assert(im * n >= 0) by (nonlinear_arith)
        requires
            im >= 0,
            n >= 0;
    assert(y_num(sizes, w, om, im, i + 1) == y_num(sizes, w, om, im, i) * n + (im * n + u) * p);
    lemma_y_num_bound(sizes, w, om, im, i);
    lemma_y_num_bound(sizes, w, om, im, i + 1);
    let yi = y_num(sizes, w, om, im, i);
    assert(yi * n >= 0) by (nonlinear_arith)
        requires
            yi >= 0,
            n >= 1;
    assert((im * n + u) * p >= 0) by (nonlinear_arith)
        requires
            im >= 0,
            n >= 0,
            u >= 0,
            p >= 1;
    assert(om + (i + 1) * (im + w) <= 8590983168) by (nonlinear_arith)
        requires
            0 <= om <= 0x10_0000,
            0 <= im <= 0x10_0000,
            0 <= w <= 0x10_0000,
            1 <= i + 1 <= 0x1000;
    assert((om + (i + 1) * (im + w)) * pos_prod(sizes, i + 1) <= 8590983168 * 0xFFFF_FFFF_FFFF_FFFF)
        by (nonlinear_arith)
        requires
            0 <= om + (i + 1) * (im + w) <= 8590983168,
            1 <= pos_prod(sizes, i + 1) <= 0xFFFF_FFFF_FFFF_FFFF;
    assert(8590983168 * 0xFFFF_FFFF_FFFF_FFFF < u128::MAX as int);
}

/// Bounds on every intermediate value of the exact horizontal coordinate of
/// column `j` in a row of `n` cells: all fit comfortably in `u128`.
pub proof fn lemma_x_step(w: int, om: int, im: int, n: int, j: int)
    requires
        0 <= w <= MAX_DIM as int,
        0 <= om <= MAX_DIM as int,
        0 <= im <= MAX_DIM as int,
        1 <= n <= MAX_ROW_LEN as int,
        0 <= j < n,
        2 * om + (n - 1) * im <= w,
    ensures
        0 <= usable_width(w, om, im, n) <= w,
        0 <= j * im <= 0x10_0000_0000,
        0 <= j * usable_width(w, om, im, n) <= 0x10_0000_0000,
        0 <= (om + j * im) * n <= 0x20_0000_0000_0000,
        x_num(w, om, im, n, j) == (om + j * im) * n + j * usable_width(w, om, im, n),
{
    assert((n - 1) * im >= 0) by (nonlinear_arith)
        requires
            n >= 1,
            im >= 0;
    let u = usable_width(w, om, im, n);
    assert(0 <= j * im <= 0x10_0000_0000) by (nonlinear_arith)
        requires
            0 <= j < 0x1_0000,
            0 <= im <= 0x10_0000;
    assert(0 <= j * u <= 0x10_0000_0000) by (nonlinear_arith)
        requires
            0 <= j < 0x1_0000,
            0 <= u <= 0x10_0000;
    assert(0 <= (om + j * im) * n <= 0x20_0000_0000_0000) by (nonlinear_arith)
        requires
            0 <= om <= 0x10_0000,
            0 <= j * im <= 0x10_0000_0000,
            1 <= n <= 0x1_0000;
}

/// The side of a cell in a row of `n` cells: the exact fraction
/// `(w - 2*om - (n - 1)*im) / n`. Identical inputs give the identical
/// fraction: the result is pinned to the inputs, so the layout is
/// deterministic.
pub fn cell_size(w: u64, om: u64, im: u64, n: usize) -> (r: Frac)
    requires
        1 <= n,
        2 * (om as int) + ((n as int) - 1) * (im as int) <= w as int,
    ensures
        r.wf(),
        r.den == n as u128,
        r.num as int == usable_width(w as int, om as int, im as int, n as int),
{
    proof {
        assert(((n as int) - 1) * (im as int) >= 0) by (nonlinear_arith)
            requires
                n as int >= 1,
                im as int >= 0;
        assert(((n as int) - 1) * (im as int) < 0x10000000000000000 * 0x10000000000000000)
            by (nonlinear_arith)
            requires
                0 <= (n as int) - 1 < 0x10000000000000000,
                0 <= (im as int) < 0x10000000000000000;
    }
    let inner: u128 = ((n as u128) - 1) * (im as u128);
    let num: u128 = (w as u128) - 2 * (om as u128) - inner;
    Frac { num, den: n as u128 }
}

} // verus!
