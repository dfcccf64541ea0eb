//! Stack tiling: windows in columns of up to five, left to right.

use crate::model::Rect;
use crate::tiling::preset::rect;
use vstd::prelude::*;

verus! {

const COLUMN_CAPACITY: usize = 5;

/// Minimum tile dimension in pixels. Tiles smaller than this are not usable
/// on any display, so we cap the number of columns to avoid producing them.
const MIN_TILE_PX: i32 = 80;

/// The number of columns used for `n` windows on a screen `width` pixels wide
/// (`width > 0`): enough columns of five for all windows, but no more than
/// `width / 80` (and at least one).
pub open spec fn column_count(n: int, width: int) -> int {
    let needed = (n + 4) / 5;
    let max_by_width = if width / 80 >= 1 {
        width / 80
    } else {
        1
    };
    let c = if needed <= max_by_width {
        needed
    } else {
        max_by_width
    };
    if c >= 1 {
        c
    } else {
        1
    }
}

/// How many of `n` windows get a tile: the grid holds five per column.
pub open spec fn tiled_count(n: int, width: int) -> int {
    let cap = column_count(n, width) * 5;
    if n <= cap {
        n
    } else {
        cap
    }
}

/// How many tiles the column of tile `i` holds.
pub open spec fn column_size(n: int, width: int, i: int) -> int {
    let rest = tiled_count(n, width) - (i / 5) * 5;
    if rest <= 5 {
        rest
    } else {
        5
    }
}

/// The tile of the `i`-th window when `n` windows are stacked on `screen`.
/// Columns are `width / columns` wide and the last column absorbs the
/// remainder; rows in a column are `height / column_size` tall and the
/// last row absorbs the remainder.
pub open spec fn stack_tile(screen: Rect, n: int, i: int) -> Rect {
    let w = screen.width as int;
    let h = screen.height as int;
    let nc = column_count(n, w);
    let col_w = w / nc;
    let col = i / 5;
    let row = i % 5;
    let cc = column_size(n, w, i);
    let row_h = h / cc;
    let tile_w = if col == nc - 1 {
        w - col_w * (nc - 1)
    } else {
        col_w
    };
    let tile_h = if row == cc - 1 {
        h - row_h * (cc - 1)
    } else {
        row_h
    };
    rect(screen.x + col_w * col, screen.y + row_h * row, tile_w, tile_h)
}

/// The stack layout of `ids` on `screen`: nothing on an empty list or a
/// screen without area; otherwise the first `tiled_count` ids, in order,
/// each with its tile.
pub open spec fn stack_positions(ids: Seq<u64>, screen: Rect) -> Seq<(u64, Rect)> {
    if ids.len() == 0 || screen.width <= 0 || screen.height <= 0 {
        Seq::empty()
    } else {
        Seq::new(
            tiled_count(ids.len() as int, screen.width as int) as nat,
            |i: int| (ids[i], stack_tile(screen, ids.len() as int, i)),
        )
    }
}

/// The screen's far edges are representable.
pub open spec fn screen_fits(screen: Rect) -> bool {
    screen.width > 0 && screen.height > 0 ==> {
        &&& screen.x + screen.width <= i32::MAX
        &&& screen.y + screen.height <= i32::MAX
    }
}

proof fn lemma_div_mul_le(a: int, b: int, k: int)
    by (nonlinear_arith)
    requires
        a >= 0,
        b > 0,
        0 <= k < b,
    ensures
        (a / b) * k <= a - a / b,
        (a / b) * k >= 0,
        (a / b) * (b - 1) <= a,
        a - (a / b) * (b - 1) >= 0,
{
    assert((a / b) * b <= a);
    assert((a / b) * k <= (a / b) * (b - 1));
}

proof fn lemma_column_facts(n: int, w: int, i: int)
    requires
        n >= 1,
        w >= 1,
        0 <= i < tiled_count(n, w),
    ensures
        1 <= column_count(n, w) <= w,
        0 <= i / 5 < column_count(n, w),
        1 <= column_size(n, w, i) <= 5,
        i % 5 < column_size(n, w, i),
        tiled_count(n, w) <= n,
{
    let nc = column_count(n, w);
    assert(nc <= w) by {
        if w / 80 >= 1 {
            assert(w / 80 <= w);
        }
    }
    assert(i / 5 < nc) by {
        assert(i < nc * 5);
    }
}

/// Compute tiled positions for a stack of windows.
///
/// Windows are laid out in columns of up to 5, left to right.
/// The input order is preserved: `window_ids[0]` lands at the top of the first column.
///
/// If the screen dimensions are zero or negative, an empty vec is returned.
/// The number of columns is capped so that every tile is at least
/// 80 pixels wide; excess windows beyond the grid capacity
/// are omitted from the result (the caller is responsible for stashing them).
pub fn stack_layout(window_ids: &[u64], screen: Rect) -> (r: Vec<(u64, Rect)>)
    requires
        screen_fits(screen),
    ensures
        r@ == stack_positions(window_ids@, screen),
{
    let n = window_ids.len();
    if n == 0 || screen.width <= 0 || screen.height <= 0 {
        return Vec::new();
    }
    let ghost ni = n as int;
    let ghost wi = screen.width as int;
    let needed = n / COLUMN_CAPACITY + if n % COLUMN_CAPACITY == 0 { 0 } else { 1 };
    assert(needed == (ni + 4) / 5);
    let by_width = screen.width / MIN_TILE_PX;
    let max_by_width: usize = if by_width >= 1 { by_width as usize } else { 1 };
    let capped = if needed <= max_by_width { needed } else { max_by_width };
    let num_columns: usize = if capped >= 1 { capped } else { 1 };
    assert(num_columns == column_count(ni, wi));
    assert(num_columns <= wi);
    let max_windows = num_columns * COLUMN_CAPACITY;
    let effective_n = if n <= max_windows { n } else { max_windows };
    assert(effective_n == tiled_count(ni, wi));
    let col_width: i32 = screen.width / (num_columns as i32);

    let mut result: Vec<(u64, Rect)> = Vec::new();
    let mut i: usize = 0;
    while i < effective_n
        invariant
            n == window_ids@.len(),
            ni == n,
            wi == screen.width,
            n >= 1,
            screen.width > 0,
            screen.height > 0,
            screen_fits(screen),
            num_columns == column_count(ni, wi),
            effective_n == tiled_count(ni, wi),
            col_width == wi / (num_columns as int),
            i <= effective_n,
            result@.len() == i,
            forall|j: int|
                0 <= j < i ==> #[trigger] result@[j] == (window_ids@[j], stack_tile(screen, ni, j)),
        decreases effective_n - i,
    {
        proof {
            lemma_column_facts(ni, wi, i as int);
        }
        let id = window_ids[i];
        let col = i / COLUMN_CAPACITY;
        let row = i % COLUMN_CAPACITY;
        let col_start = col * COLUMN_CAPACITY;
        let rest = effective_n - col_start;
        let col_count = if rest <= COLUMN_CAPACITY { rest } else { COLUMN_CAPACITY };
        assert(col_count == column_size(ni, wi, i as int));
        let row_height: i32 = screen.height / (col_count as i32);
        proof {
            lemma_div_mul_le(wi, num_columns as int, col as int);
            lemma_div_mul_le(screen.height as int, col_count as int, row as int);
        }
        let w = if col == num_columns - 1 {
            screen.width - col_width * ((num_columns - 1) as i32)
        } else {
            col_width
        };
        let h = if row == col_count - 1 {
            screen.height - row_height * ((col_count - 1) as i32)
        } else {
            row_height
        };
        let tile = Rect {
            x: screen.x + col_width * (col as i32),
            y: screen.y + row_height * (row as i32),
            width: w,
            height: h,
        };
        assert(tile == stack_tile(screen, ni, i as int));
        result.push((id, tile));
        i = i + 1;
    }
    assert(result@ =~= stack_positions(window_ids@, screen));
    result
}

} // verus!

verus! {

/// Facts about the numbers behind one tile, in `int`.
proof fn lemma_tile_numbers(screen: Rect, n: int, i: int)
    requires
        n >= 1,
        screen.width > 0,
        screen.height > 0,
        screen_fits(screen),
        0 <= i < tiled_count(n, screen.width as int),
    ensures
        ({
            let w = screen.width as int;
            let h = screen.height as int;
            let nc = column_count(n, w);
            let col_w = w / nc;
            let cc = column_size(n, w, i);
            let row_h = h / cc;
            let col = i / 5;
            let row = i % 5;
            &&& 0 <= col_w * col && col_w * col + col_w <= w
            &&& col_w * (nc - 1) + (w - col_w * (nc - 1)) == w
            &&& 0 <= row_h * row && row_h * row + row_h <= h
            &&& w - col_w * (nc - 1) >= 0 && h - row_h * (cc - 1) >= 0
            &&& col_w * (col + 1) == col_w * col + col_w
            &&& row_h * (row + 1) == row_h * row + row_h
            &&& col_w * (nc - 1) <= w && row_h * (cc - 1) <= h
            &&& col < nc - 1 ==> col_w * col + col_w <= col_w * (nc - 1)
            &&& row < cc - 1 ==> row_h * row + row_h <= row_h * (cc - 1)
            &&& col == nc - 1 ==> col_w * col == col_w * (nc - 1)
            &&& row == cc - 1 ==> row_h * row == row_h * (cc - 1)
        }),
{
    let w = screen.width as int;
    let h = screen.height as int;
    let nc = column_count(n, w);
    lemma_column_facts(n, w, i);
    let cc = column_size(n, w, i);
    let col = i / 5;
    let row = i % 5;
    let col_w = w / nc;
    let row_h = h / cc;
    assert(0 <= col_w * col && col_w * col + col_w <= w) by (nonlinear_arith)
        requires
            nc >= 1,
            0 <= col < nc,
            col_w == w / nc,
            w > 0,
    {
        assert(col_w * nc <= w);
        assert(col_w * (col + 1) <= col_w * nc);
    }
    assert(0 <= row_h * row && row_h * row + row_h <= h) by (nonlinear_arith)
        requires
            cc >= 1,
            0 <= row < cc,
            row_h == h / cc,
            h > 0,
    {
        assert(row_h * cc <= h);
        assert(row_h * (row + 1) <= row_h * cc);
    }
    lemma_div_mul_le(w, nc, 0);
    lemma_div_mul_le(h, cc, 0);
    assert(col_w * (col + 1) == col_w * col + col_w) by (nonlinear_arith);
    assert(row_h * (row + 1) == row_h * row + row_h) by (nonlinear_arith);
    assert(col < nc - 1 ==> col_w * col + col_w <= col_w * (nc - 1)) by (nonlinear_arith)
        requires
            col_w >= 0,
            col >= 0,
    ;
    assert(row < cc - 1 ==> row_h * row + row_h <= row_h * (cc - 1)) by (nonlinear_arith)
        requires
            row_h >= 0,
            row >= 0,
    ;
}

/// A tile lies inside the screen and touches the screen edges where its
/// row or column is the first or last.
proof fn lemma_tile_inside(screen: Rect, n: int, i: int)
    requires
        n >= 1,
        screen.width > 0,
        screen.height > 0,
        screen_fits(screen),
        0 <= i < tiled_count(n, screen.width as int),
    ensures
        ({
            let t = stack_tile(screen, n, i);
            let w = screen.width as int;
            let nc = column_count(n, w);
            let cc = column_size(n, w, i);
            &&& screen.x <= t.x && t.x + t.width <= screen.x + screen.width
            &&& screen.y <= t.y && t.y + t.height <= screen.y + screen.height
            &&& t.width >= 0 && t.height >= 0
            &&& i % 5 == 0 ==> t.y == screen.y
            &&& i % 5 == cc - 1 ==> t.y + t.height == screen.y + screen.height
            &&& i / 5 == 0 ==> t.x == screen.x
            &&& i / 5 == nc - 1 ==> t.x + t.width == screen.x + screen.width
        }),
{
    lemma_tile_numbers(screen, n, i);
    lemma_column_facts(n, screen.width as int, i);
    let w = screen.width as int;
    let h = screen.height as int;
    let nc = column_count(n, w);
    let col_w = w / nc;
    let cc = column_size(n, w, i);
    let row_h = h / cc;
    let col = i / 5;
    let row = i % 5;
    let tile_w = if col == nc - 1 {
        w - col_w * (nc - 1)
    } else {
        col_w
    };
    let tile_h = if row == cc - 1 {
        h - row_h * (cc - 1)
    } else {
        row_h
    };
    let x = screen.x + col_w * col;
    let y = screen.y + row_h * row;
    assert(screen.x <= x && x + tile_w <= screen.x + w);
    assert(screen.y <= y && y + tile_h <= screen.y + h);
    let t = stack_tile(screen, n, i);
    assert(t == rect(x, y, tile_w, tile_h));
    assert(t.x == x && t.y == y && t.width == tile_w && t.height == tile_h);
    assert(row == 0 ==> row_h * row == 0) by (nonlinear_arith);
    assert(col == 0 ==> col_w * col == 0) by (nonlinear_arith);
    assert(row == 0 ==> t.y == screen.y);
    assert(row == cc - 1 ==> t.y + t.height == screen.y + screen.height);
    assert(col == 0 ==> t.x == screen.x);
    assert(col == nc - 1 ==> t.x + t.width == screen.x + screen.width);
}

/// The next tile of a column sits right below, with the same left edge and width.
#[verifier::spinoff_prover]
proof fn lemma_tile_below(screen: Rect, n: int, i: int)
    requires
        n >= 1,
        screen.width > 0,
        screen.height > 0,
        screen_fits(screen),
        0 <= i < tiled_count(n, screen.width as int),
        i % 5 < column_size(n, screen.width as int, i) - 1,
    ensures
        ({
            let t = stack_tile(screen, n, i);
            let u = stack_tile(screen, n, i + 1);
            &&& u.x == t.x && u.width == t.width
            &&& u.y == t.y + t.height
        }),
{
    let w = screen.width as int;
    lemma_tile_numbers(screen, n, i);
    lemma_column_facts(n, w, i);
    let col = i / 5;
    let row = i % 5;
    assert((i + 1) / 5 == col && (i + 1) % 5 == row + 1);
    assert(column_size(n, w, i + 1) == column_size(n, w, i));
    assert(i + 1 < tiled_count(n, w));
    lemma_tile_numbers(screen, n, i + 1);
}

/// The next column starts where a tile's column ends.
#[verifier::spinoff_prover]
proof fn lemma_tile_next_column(screen: Rect, n: int, i: int)
    requires
        n >= 1,
        screen.width > 0,
        screen.height > 0,
        screen_fits(screen),
        0 <= i < tiled_count(n, screen.width as int),
        i / 5 < column_count(n, screen.width as int) - 1,
    ensures
        (i / 5 + 1) * 5 < tiled_count(n, screen.width as int),
        stack_tile(screen, n, (i / 5 + 1) * 5).x == stack_tile(screen, n, i).x + stack_tile(
            screen,
            n,
            i,
        ).width,
{
    let w = screen.width as int;
    let nc = column_count(n, w);
    lemma_tile_numbers(screen, n, i);
    lemma_column_facts(n, w, i);
    let col = i / 5;
    let j = (col + 1) * 5;
    assert(j / 5 == col + 1 && j % 5 == 0);
    assert(j < nc * 5);
    assert(j < n) by {
        assert(nc <= (n + 4) / 5);
    }
    assert(j < tiled_count(n, w));
    lemma_tile_numbers(screen, n, j);
    assert(w / nc * (col + 1) == w / nc * col + w / nc) by (nonlinear_arith);
    assert(stack_tile(screen, n, j).x == screen.x + w / nc * (col + 1));
    assert(stack_tile(screen, n, i).x == screen.x + w / nc * col);
    assert(stack_tile(screen, n, i).width == w / nc);
}

/// The stack layout tiles the screen without gaps: every tile lies inside
/// the screen; a column's tiles share its left edge and width and follow
/// each other from the top of the screen to its bottom; the first column
/// starts at the screen's left edge, each next column starts where the
/// previous one ends, and the last one ends at the screen's right edge.
/// Windows past the grid get no tile: only the first
/// `min(n, 5 * columns)` are tiled.
pub proof fn law_stack_tiles_screen(screen: Rect, n: int, i: int)
    requires
        n >= 1,
        screen.width > 0,
        screen.height > 0,
        screen_fits(screen),
        0 <= i < tiled_count(n, screen.width as int),
    ensures
        ({
            let t = stack_tile(screen, n, i);
            let w = screen.width as int;
            let nc = column_count(n, w);
            let cc = column_size(n, w, i);
            &&& screen.x <= t.x && t.x + t.width <= screen.x + screen.width
            &&& screen.y <= t.y && t.y + t.height <= screen.y + screen.height
            &&& t.width >= 0 && t.height >= 0
            &&& i % 5 == 0 ==> t.y == screen.y
            &&& i % 5 == cc - 1 ==> t.y + t.height == screen.y + screen.height
            &&& i % 5 < cc - 1 ==> {
                let u = stack_tile(screen, n, i + 1);
                &&& u.x == t.x && u.width == t.width
                &&& u.y == t.y + t.height
            }
            &&& i / 5 == 0 ==> t.x == screen.x
            &&& i / 5 == nc - 1 ==> t.x + t.width == screen.x + screen.width
            &&& i / 5 < nc - 1 ==> (i / 5 + 1) * 5 < tiled_count(n, w) && stack_tile(
                screen,
                n,
                (i / 5 + 1) * 5,
            ).x == t.x + t.width
        }),
        tiled_count(n, screen.width as int) <= n,
        tiled_count(n, screen.width as int) == n || tiled_count(n, screen.width as int) == 5
            * column_count(n, screen.width as int),
{
    let w = screen.width as int;
    lemma_tile_inside(screen, n, i);
    lemma_column_facts(n, w, i);
    if i % 5 < column_size(n, w, i) - 1 {
        lemma_tile_below(screen, n, i);
    }
    if i / 5 < column_count(n, w) - 1 {
        lemma_tile_next_column(screen, n, i);
    }
}

} // verus!
