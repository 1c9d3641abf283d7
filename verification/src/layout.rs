//! Layout engine: given a window count and a screen rectangle, compute one
//! rectangle per window. Coordinates are integer display units; the engine
//! is pure and deterministic.
//!
//! Policy by count: 0 is an empty plan, 1 maximizes, 2 splits into equal
//! vertical halves, 3 makes an L-shape (full-height left half, right half
//! stacked), and 4 or more fill a row-major grid with
//! `cols = ceil(sqrt(count))` columns and `rows = ceil(count / cols)` rows.

use vstd::prelude::*;
use vstd::arithmetic::div_mod::lemma_fundamental_div_mod;

verus! {

/// A screen or window rectangle: origin and extent in integer display units.
#[derive(Clone, Copy, PartialEq, Eq, Structural, Debug)]
pub struct Rect {
    pub x: i64,
    pub y: i64,
    pub w: u32,
    pub h: u32,
}

impl Rect {
    /// Well-formed: the far edges stay representable, so that coordinate
    /// arithmetic inside the engine cannot overflow.
    pub open spec fn wf(self) -> bool {
        self.x + self.w <= i64::MAX
        && self.y + self.h <= i64::MAX
    }

    /// `self` lies entirely within `outer`.
    pub open spec fn contained_in(self, outer: Rect) -> bool {
        outer.x <= self.x
        && self.x + self.w <= outer.x + outer.w
        && outer.y <= self.y
        && self.y + self.h <= outer.y + outer.h
    }
}

/// The least `r >= c` with `r * r >= n`, reached by counting up from `c`.
pub open spec fn ceil_sqrt_from(c: int, n: int) -> int
    recommends
        1 <= c <= n,
    decreases n - c,
{
    if n - c <= 0 || c * c >= n {
        c
    } else {
        ceil_sqrt_from(c + 1, n)
    }
}

/// `ceil(sqrt(n))` for `n >= 1`.
pub open spec fn ceil_sqrt(n: int) -> int {
    ceil_sqrt_from(1, n)
}

/// `ceil(n / d)` for `d >= 1`.
pub open spec fn ceil_div(n: int, d: int) -> int
    recommends
        1 <= d,
{
    (n + d - 1) / d
}

/// Columns of the generalized grid.
pub open spec fn grid_cols_spec(n: int) -> int {
    ceil_sqrt(n)
}

/// Rows of the generalized grid.
pub open spec fn grid_rows_spec(n: int) -> int {
    ceil_div(n, grid_cols_spec(n))
}

/// Left edge of slot `i` in a plan for `n` windows on screen `s`.
pub open spec fn slot_x(n: int, s: Rect, i: int) -> int
    recommends
        1 <= n,
        0 <= i < n,
{
    if n <= 1 {
        s.x as int
    } else if n == 2 || n == 3 {
        if i == 0 { s.x as int } else { s.x + s.w as int / 2 }
    } else {
        s.x + (i % grid_cols_spec(n)) * (s.w as int / grid_cols_spec(n))
    }
}

/// Top edge of slot `i`.
pub open spec fn slot_y(n: int, s: Rect, i: int) -> int
    recommends
        1 <= n,
        0 <= i < n,
{
    if n <= 2 {
        s.y as int
    } else if n == 3 {
        if i <= 1 { s.y as int } else { s.y + s.h as int / 2 }
    } else {
        s.y + (i / grid_cols_spec(n)) * (s.h as int / grid_rows_spec(n))
    }
}

/// Width of slot `i`.
pub open spec fn slot_w(n: int, s: Rect, i: int) -> int
    recommends
        1 <= n,
        0 <= i < n,
{
    if n <= 1 {
        s.w as int
    } else if n == 2 || n == 3 {
        s.w as int / 2
    } else {
        s.w as int / grid_cols_spec(n)
    }
}

/// Height of slot `i`.
pub open spec fn slot_h(n: int, s: Rect, i: int) -> int
    recommends
        1 <= n,
        0 <= i < n,
{
    if n <= 2 {
        s.h as int
    } else if n == 3 {
        if i == 0 { s.h as int } else { s.h as int / 2 }
    } else {
        s.h as int / grid_rows_spec(n)
    }
}

/// `r` is exactly the rectangle the layout policy assigns to slot `i`.
pub open spec fn is_slot(r: Rect, n: int, s: Rect, i: int) -> bool {
    r.x == slot_x(n, s, i)
    && r.y == slot_y(n, s, i)
    && r.w == slot_w(n, s, i)
    && r.h == slot_h(n, s, i)
}

/// Counting up from a `c` whose predecessor square is below `n` lands on
/// the ceiling square root: the result squares to at least `n`, its
/// predecessor squares to less.
proof fn lemma_ceil_sqrt_from(c: int, n: int)
    requires
        1 <= c <= n,
        (c - 1) * (c - 1) < n,
    ensures
        c <= ceil_sqrt_from(c, n) <= n,
        ceil_sqrt_from(c, n) * ceil_sqrt_from(c, n) >= n,
        (ceil_sqrt_from(c, n) - 1) * (ceil_sqrt_from(c, n) - 1) < n,
    decreases n - c,
{
    if n - c <= 0 {
        assert(c == n);
        assert(n * n >= n) by (nonlinear_arith)
            requires 1 <= n;
    } else if c * c >= n {
    } else {
        assert(c + 1 <= n) by (nonlinear_arith)
            requires 1 <= c && c * c < n;
        lemma_ceil_sqrt_from(c + 1, n);
    }
}

/// Bounds on the grid dimensions: at least one column and one row, the
/// column count at most `0x10000` for any count that fits in 32 bits, and
/// enough cells for every window.
proof fn lemma_grid_dims(n: int)
    requires
        1 <= n <= 0xFFFF_FFFFint,
    ensures
        1 <= grid_cols_spec(n) <= 0x10000,
        1 <= grid_rows_spec(n) <= n,
        grid_cols_spec(n) * grid_rows_spec(n) >= n,
{
    lemma_ceil_sqrt_from(1, n);
    let d = grid_cols_spec(n);
    assert(d <= 0x10000) by (nonlinear_arith)
        requires (d - 1) * (d - 1) < 0x1_0000_0000int && 1 <= d;
    let r = grid_rows_spec(n);
    lemma_fundamental_div_mod(n + d - 1, d);
    let m = (n + d - 1) % d;
    assert(0 <= m < d) by (nonlinear_arith)
        requires 1 <= d && m == (n + d - 1) % d;
    assert(d * r == n + d - 1 - m);
    assert(d * r >= n);
    assert(r >= 1) by (nonlinear_arith)
        requires d * r >= n && n >= 1 && d >= 1;
    assert(r <= n) by (nonlinear_arith)
        requires d * r <= n + d - 1 && d >= 1 && n >= 1;
}

/// A tile of width `w / d` placed at column `k` of `d` stays within a span
/// of width `w`.
proof fn lemma_tile_fits(w: int, d: int, k: int)
    requires
        0 <= w,
        1 <= d,
        0 <= k < d,
    ensures
        0 <= w / d,
        k * (w / d) >= 0,
        k * (w / d) + w / d <= w,
{
    let t = w / d;
    lemma_fundamental_div_mod(w, d);
    let m = w % d;
    assert(0 <= m < d) by (nonlinear_arith)
        requires 1 <= d && m == w % d;
    assert(t >= 0) by (nonlinear_arith)
        requires d * t == w - m && 0 <= m < d && w >= 0 && d >= 1;
    assert(k * t >= 0) by (nonlinear_arith)
        requires k >= 0 && t >= 0;
    assert(k * t + t <= d * t) by (nonlinear_arith)
        requires k + 1 <= d && t >= 0;
    assert(d * t <= w);
}

/// Every index below `n` lands on a row below `rows` when the grid has at
/// least `n` cells.
proof fn lemma_row_in_range(i: int, d: int, r: int, n: int)
    requires
        1 <= d,
        0 <= i < n,
        n <= d * r,
    ensures
        0 <= i % d < d,
        0 <= i / d < r,
{
    lemma_fundamental_div_mod(i, d);
    let q = i / d;
    let m = i % d;
    assert(0 <= m < d) by (nonlinear_arith)
        requires 1 <= d && m == i % d;
    assert(q >= 0) by (nonlinear_arith)
        requires d * q == i - m && 0 <= m < d && i >= 0 && d >= 1;
    assert(q < r) by (nonlinear_arith)
        requires d * q + m == i && 0 <= m && i < n && n <= d * r && d >= 1 && q >= 0;
}

/// Columns of the generalized grid: the least `c` with `c * c >= n`.
pub fn grid_cols(n: usize) -> (c: usize)
    requires
        1 <= n <= 0xFFFF_FFFFusize,
    ensures
        c == grid_cols_spec(n as int),
        1 <= c <= 0x10000,
{
    proof {
        lemma_ceil_sqrt_from(1, n as int);
    }
    let mut c: usize = 1;
    loop
        invariant
            1 <= c <= 0x10000,
            c <= n,
            1 <= n <= 0xFFFF_FFFFusize,
            (c - 1) * (c - 1) < n,
            grid_cols_spec(n as int) == ceil_sqrt_from(c as int, n as int),
        ensures
            1 <= c <= 0x10000,
            c * c >= n,
            grid_cols_spec(n as int) == ceil_sqrt_from(c as int, n as int),
        decreases n - c,
    {
        proof {
            assert(c * c <= 0x1_0000_0000int) by (nonlinear_arith)
                requires 1 <= c <= 0x10000;
        }
        if (c as u64) * (c as u64) >= (n as u64) {
            break;
        }
        proof {
            assert(c < n) by (nonlinear_arith)
                requires 1 <= c && c * c < n;
            assert(c + 1 <= 0x10000) by (nonlinear_arith)
                requires c * c < n && n <= 0x1_0000_0000int && 1 <= c;
        }
        c = c + 1;
    }
    proof {
        assert(ceil_sqrt_from(c as int, n as int) == c);
    }
    c
}

/// Rows of the generalized grid: `ceil(n / cols)`.
pub fn grid_rows(n: usize, cols: usize) -> (r: usize)
    requires
        1 <= n <= 0xFFFF_FFFFusize,
        1 <= cols <= 0x10000,
    ensures
        r == ceil_div(n as int, cols as int),
        1 <= r <= n,
{
    proof {
        lemma_fundamental_div_mod(n + cols - 1, cols as int);
        let d = cols as int;
        let q = ceil_div(n as int, d);
        let m = (n + d - 1) % d;
        assert(0 <= m < d) by (nonlinear_arith)
            requires 1 <= d && m == (n + d - 1) % d;
        assert(q >= 1) by (nonlinear_arith)
            requires d * q >= n && n >= 1 && d >= 1;
        assert(q <= n) by (nonlinear_arith)
            requires d * q <= n + d - 1 && d >= 1 && n >= 1;
    }
    let r = ((n as u64) + (cols as u64) - 1) / (cols as u64);
    r as usize
}

/// The left half of a screen: full height, half the width.
pub fn left_half(screen: Rect) -> (r: Rect)
    requires
        screen.wf(),
    ensures
        r.x == screen.x,
        r.y == screen.y,
        r.w == screen.w / 2,
        r.h == screen.h,
        r.wf(),
        r.contained_in(screen),
{
    Rect { x: screen.x, y: screen.y, w: screen.w / 2, h: screen.h }
}

/// A plan for a single window fills the screen exactly.
pub proof fn lemma_single_window_fills_screen(s: Rect)
    ensures
        slot_x(1, s, 0) == s.x,
        slot_y(1, s, 0) == s.y,
        slot_w(1, s, 0) == s.w,
        slot_h(1, s, 0) == s.h,
{
}

/// Two windows split an even-width screen into two equal full-height
/// vertical halves, left then right, covering the whole width between
/// them. (With an odd width the two halves are still equal, but one unit
/// of width is left uncovered, so the covering clause asks for evenness.)
pub proof fn lemma_two_windows_halves(s: Rect)
    requires
        s.w % 2 == 0,
    ensures
        slot_w(2, s, 0) == s.w as int / 2,
        slot_w(2, s, 1) == s.w as int / 2,
        slot_h(2, s, 0) == s.h,
        slot_h(2, s, 1) == s.h,
        slot_y(2, s, 0) == s.y,
        slot_y(2, s, 1) == s.y,
        slot_x(2, s, 0) == s.x,
        slot_x(2, s, 1) == slot_x(2, s, 0) + slot_w(2, s, 0),
        slot_w(2, s, 0) + slot_w(2, s, 1) == s.w,
{
    lemma_fundamental_div_mod(s.w as int, 2);
}

/// Four windows form a 2-by-2 grid of equal quadrants, assigned in
/// row-major order: top-left, top-right, bottom-left, bottom-right.
pub proof fn lemma_four_windows_quadrants(s: Rect)
    ensures
        grid_cols_spec(4) == 2,
        grid_rows_spec(4) == 2,
        forall|i: int| 0 <= i < 4
            ==> #[trigger] slot_w(4, s, i) == s.w as int / 2
                && slot_h(4, s, i) == s.h as int / 2,
        slot_x(4, s, 0) == s.x && slot_y(4, s, 0) == s.y,
        slot_x(4, s, 1) == s.x + s.w as int / 2 && slot_y(4, s, 1) == s.y,
        slot_x(4, s, 2) == s.x && slot_y(4, s, 2) == s.y + s.h as int / 2,
        slot_x(4, s, 3) == s.x + s.w as int / 2 && slot_y(4, s, 3) == s.y + s.h as int / 2,
{
    reveal_with_fuel(ceil_sqrt_from, 3);
    assert(grid_cols_spec(4) == 2);
    assert(grid_rows_spec(4) == 2);
    let tw = s.w as int / 2;
    let th = s.h as int / 2;
    assert(0int % 2int == 0 && 0int / 2int == 0);
    assert(1int % 2int == 1 && 1int / 2int == 0);
    assert(2int % 2int == 0 && 2int / 2int == 1);
    assert(3int % 2int == 1 && 3int / 2int == 1);
    assert(slot_x(4, s, 0) == s.x + 0 * tw && slot_y(4, s, 0) == s.y + 0 * th);
    assert(slot_x(4, s, 1) == s.x + 1 * tw && slot_y(4, s, 1) == s.y + 0 * th);
    assert(slot_x(4, s, 2) == s.x + 0 * tw && slot_y(4, s, 2) == s.y + 1 * th);
    assert(slot_x(4, s, 3) == s.x + 1 * tw && slot_y(4, s, 3) == s.y + 1 * th);
}

/// Ten windows get a 4-column, 3-row grid (the ceiling square root of 10
/// is 4, and 10 windows need 3 rows of 4), with uniform tiles a quarter of
/// the width and a third of the height; the last window, index 9, lands on
/// column 1 of row 2.
pub proof fn lemma_ten_window_grid(s: Rect)
    ensures
        grid_cols_spec(10) == 4,
        grid_rows_spec(10) == 3,
        forall|i: int| 0 <= i < 10
            ==> #[trigger] slot_w(10, s, i) == s.w as int / 4
                && slot_h(10, s, i) == s.h as int / 3,
        slot_x(10, s, 9) == s.x + 1 * (s.w as int / 4),
        slot_y(10, s, 9) == s.y + 2 * (s.h as int / 3),
{
    reveal_with_fuel(ceil_sqrt_from, 5);
    assert(grid_cols_spec(10) == 4);
    assert(grid_rows_spec(10) == 3);
    assert(9int % 4int == 1 && 9int / 4int == 2);
    assert(slot_x(10, s, 9) == s.x + 1 * (s.w as int / 4));
    assert(slot_y(10, s, 9) == s.y + 2 * (s.h as int / 3));
}

/// Compute the layout plan: one rectangle per window, index-aligned with
/// the window inventory, each exactly the rectangle the policy assigns to
/// its slot and each contained in the screen.
pub fn compute_layout(n: usize, screen: Rect) -> (plan: Vec<Rect>)
    requires
        screen.wf(),
        n <= 0xFFFF_FFFFusize,
    ensures
        plan@.len() == n,
        forall|i: int| 0 <= i < n ==> is_slot(#[trigger] plan@[i], n as int, screen, i),
        forall|i: int| 0 <= i < n
            ==> (#[trigger] plan@[i]).wf() && plan@[i].contained_in(screen),
{
    let mut plan: Vec<Rect> = Vec::new();
    if n == 0 {
        return plan;
    }
    if n == 1 {
        plan.push(screen);
        return plan;
    }
    if n == 2 || n == 3 {
        let half_w = screen.w / 2;
        let half_h = screen.h / 2;
        let right_x = screen.x + (half_w as i64);
        plan.push(Rect { x: screen.x, y: screen.y, w: half_w, h: screen.h });
        if n == 2 {
            plan.push(Rect { x: right_x, y: screen.y, w: half_w, h: screen.h });
        } else {
            plan.push(Rect { x: right_x, y: screen.y, w: half_w, h: half_h });
            plan.push(Rect {
                x: right_x,
                y: screen.y + (half_h as i64),
                w: half_w,
                h: half_h,
            });
        }
        return plan;
    }
    let cols = grid_cols(n);
    let rows = grid_rows(n, cols);
    let tw = screen.w / (cols as u32);
    let th = screen.h / (rows as u32);
    proof {
        lemma_grid_dims(n as int);
    }
    let mut i: usize = 0;
    while i < n
        invariant
            4 <= n <= 0xFFFF_FFFFusize,
            screen.wf(),
            i <= n,
            cols == grid_cols_spec(n as int),
            rows == grid_rows_spec(n as int),
            1 <= cols <= 0x10000,
            1 <= rows <= n,
            cols * rows >= n,
            tw == screen.w as int / cols as int,
            th == screen.h as int / rows as int,
            plan@.len() == i,
            forall|j: int| 0 <= j < i ==> is_slot(#[trigger] plan@[j], n as int, screen, j),
            forall|j: int| 0 <= j < i
                ==> (#[trigger] plan@[j]).wf() && plan@[j].contained_in(screen),
        decreases n - i,
    {
        let col = i % cols;
        let row = i / cols;
        proof {
            lemma_row_in_range(i as int, cols as int, rows as int, n as int);
            lemma_tile_fits(screen.w as int, cols as int, col as int);
            lemma_tile_fits(screen.h as int, rows as int, row as int);
            assert(col * tw + tw <= screen.w);
            assert(row * th + th <= screen.h);
        }
        let x = screen.x + (col as i64) * (tw as i64);
        let y = screen.y + (row as i64) * (th as i64);
        let r = Rect { x, y, w: tw, h: th };
        proof {
            assert(r.contained_in(screen));
        }
        plan.push(r);
        i = i + 1;
    }
    plan
}

} // verus!
