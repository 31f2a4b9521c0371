//! Layout geometry: window-relative rectangles and grid tiling.

use vstd::prelude::*;

verus! {

/// A sub-rectangle of the window, in pixels.
#[derive(Debug, Clone, Copy, PartialEq, Eq, Structural)]
pub struct LayoutRect {
    pub x: u32,
    pub y: u32,
    pub width: u32,
    pub height: u32,
}

/// The pixel size of a view's output surface, as sent to the remote peer.
#[derive(Debug, Clone, Copy, PartialEq, Eq, Structural)]
pub struct ViewportSize {
    pub width: u32,
    pub height: u32,
}

impl LayoutRect {
    /// True when the point lies inside the rectangle, borders included.
    pub fn contains(&self, position: (i64, i64)) -> (r: bool)
        ensures
            r == self.spec_contains(position),
    {
        let left = self.x as i64;
        let right = self.x as i64 + self.width as i64;
        let top = self.y as i64;
        let bottom = self.y as i64 + self.height as i64;
        position.0 >= left && position.0 <= right && position.1 >= top && position.1 <= bottom
    }

    pub open spec fn spec_contains(self, position: (i64, i64)) -> bool {
        &&& self.x <= position.0 <= self.x + self.width
        &&& self.y <= position.1 <= self.y + self.height
    }
}

/// Two rectangles share no interior point.
pub open spec fn rects_disjoint(a: LayoutRect, b: LayoutRect) -> bool {
    ||| a.x + a.width <= b.x
    ||| b.x + b.width <= a.x
    ||| a.y + a.height <= b.y
    ||| b.y + b.height <= a.y
}

/// Side of one grid cell: the per-part share of `len`, floored to a
/// multiple of 4 pixels (encoder-friendly alignment).
pub open spec fn cell_side(len: int, parts: int) -> int
    recommends
        parts >= 1,
{
    (len / parts) / 4 * 4
}

/// The cell at row-major index `i` of a tiling with `columns` columns and
/// cell sides `w x h`.
pub open spec fn grid_cell(i: int, columns: int, w: int, h: int) -> LayoutRect {
    LayoutRect {
        x: ((i % columns) * w) as u32,
        y: ((i / columns) * h) as u32,
        width: w as u32,
        height: h as u32,
    }
}

/// Divides `size` into a `rows x columns` grid of cells in row-major order.
/// Cell sides are floored to a multiple of 4; remainder pixels at the right
/// and bottom edges are not distributed.
pub fn tile(size: (u32, u32), rows: usize, columns: usize) -> (layouts: Vec<LayoutRect>)
    requires
        rows >= 1,
        columns >= 1,
        rows * columns <= usize::MAX,
    ensures
        layouts.len() == rows * columns,
        forall|i: int|
            0 <= i < layouts.len() ==> layouts[i] == grid_cell(
                i,
                columns as int,
                cell_side(size.0 as int, columns as int),
                cell_side(size.1 as int, rows as int),
            ),
{
    let view_width: u32 = ((size.0 as usize) / columns / 4 * 4) as u32;
    let view_height: u32 = ((size.1 as usize) / rows / 4 * 4) as u32;
    proof {
        lemma_cell_side_in_range(size.0 as int, columns as int);
        lemma_cell_side_in_range(size.1 as int, rows as int);
    }

    let ghost w = cell_side(size.0 as int, columns as int);
    let ghost h = cell_side(size.1 as int, rows as int);

    let mut layouts: Vec<LayoutRect> = Vec::new();
    let mut y_idx: usize = 0;
    while y_idx < rows
        invariant
            y_idx <= rows,
            rows * columns <= usize::MAX,
            rows >= 1,
            columns >= 1,
            view_width == w,
            view_height == h,
            w == cell_side(size.0 as int, columns as int),
            h == cell_side(size.1 as int, rows as int),
            layouts.len() == y_idx * columns,
            forall|i: int|
                0 <= i < layouts.len() ==> layouts[i] == grid_cell(i, columns as int, w, h),
        decreases rows - y_idx,
    {
        proof {
            lemma_row_fits(y_idx as int, rows as int, columns as int);
        }
        let mut x_idx: usize = 0;
        while x_idx < columns
            invariant
                x_idx <= columns,
                y_idx < rows,
                rows * columns <= usize::MAX,
                rows >= 1,
                columns >= 1,
                view_width == w,
                view_height == h,
                w == cell_side(size.0 as int, columns as int),
                h == cell_side(size.1 as int, rows as int),
                y_idx * columns + columns <= rows * columns,
                layouts.len() == y_idx * columns + x_idx,
                forall|i: int|
                    0 <= i < layouts.len() ==> layouts[i] == grid_cell(i, columns as int, w, h),
            decreases columns - x_idx,
        {
            proof {
                lemma_coord_side(x_idx as int, columns as int, size.0 as int, w);
                lemma_coord_side(y_idx as int, rows as int, size.1 as int, h);
                lemma_row_major_index(y_idx as int, x_idx as int, columns as int);
            }
            let rect = LayoutRect {
                x: (x_idx as u32) * view_width,
                y: (y_idx as u32) * view_height,
                width: view_width,
                height: view_height,
            };
            layouts.push(rect);
            x_idx = x_idx + 1;
        }
        proof {
            lemma_row_fits(y_idx as int, rows as int, columns as int);
        }
        y_idx = y_idx + 1;
    }
    layouts
}

/// The floored-to-4 per-part share of `len` stays within `[0, len]`.
proof fn lemma_cell_side_in_range(len: int, parts: int)
    requires
        0 <= len <= u32::MAX,
        parts >= 1,
    ensures
        0 <= cell_side(len, parts) <= len / parts <= len,
{
    vstd::arithmetic::div_mod::lemma_div_pos_is_pos(len, parts);
    vstd::arithmetic::div_mod::lemma_div_pos_is_pos(len / parts, 4);
    vstd::arithmetic::mul::lemma_mul_nonnegative((len / parts) / 4, 4);
    assert((len / parts) / 4 * 4 <= len / parts) by {
        vstd::arithmetic::div_mod::lemma_remainder_lower(len / parts, 4);
    }
    vstd::arithmetic::div_mod::lemma_div_is_ordered_by_denominator(len, 1, parts);
    vstd::arithmetic::div_mod::lemma_div_basics(len);
}

proof fn lemma_row_fits(y: int, rows: int, columns: int)
    requires
        0 <= y < rows,
        columns >= 1,
    ensures
        y * columns + columns <= rows * columns,
        (y + 1) * columns == y * columns + columns,
        y * columns >= 0,
{
    vstd::arithmetic::mul::lemma_mul_inequality(y + 1, rows, columns);
    vstd::arithmetic::mul::lemma_mul_is_distributive_add_other_way(columns, y, 1);
    vstd::arithmetic::mul::lemma_mul_nonnegative(y, columns);
}

/// A grid coordinate times the cell side, plus one more cell, stays within
/// the tiled length; and casting the coordinate to `u32` keeps the product.
proof fn lemma_coord_side(idx: int, parts: int, len: int, side: int)
    requires
        0 <= idx < parts,
        1 <= parts,
        0 <= len <= u32::MAX,
        side == cell_side(len, parts),
    ensures
        0 <= idx * side,
        idx * side + side <= len,
        side >= 0,
        (idx as u32 as int) * side == idx * side || side == 0,
{
    lemma_cell_side_in_range(len, parts);
    if side > 0 {
        assert(idx * side >= 0) by {
            vstd::arithmetic::mul::lemma_mul_nonnegative(idx, side);
        }
        assert((idx + 1) * side <= parts * side) by {
            vstd::arithmetic::mul::lemma_mul_inequality(idx + 1, parts, side);
        }
        assert(parts * side <= parts * (len / parts)) by {
            vstd::arithmetic::mul::lemma_mul_left_inequality(parts, side, len / parts);
        }
        assert(parts * (len / parts) <= len) by {
            vstd::arithmetic::div_mod::lemma_fundamental_div_mod(len, parts);
            vstd::arithmetic::div_mod::lemma_mod_bound(len, parts);
            vstd::arithmetic::mul::lemma_mul_is_commutative(parts, len / parts);
        }
        assert((idx + 1) * side == idx * side + side) by {
            vstd::arithmetic::mul::lemma_mul_is_distributive_add_other_way(side, idx, 1);
        }
        // `side > 0` forces `len / parts >= 4`, hence `parts <= len` and the
        // coordinate fits in `u32`.
        assert(len / parts >= 1);
        assert(parts <= len) by {
            if parts > len {
                vstd::arithmetic::div_mod::lemma_basic_div_specific_divisor(parts);
            }
        }
        assert(idx as u32 as int == idx);
    } else {
        assert(idx * side == 0) by {
            vstd::arithmetic::mul::lemma_mul_basics(idx);
        }
    }
}

proof fn lemma_row_major_index(y: int, x: int, columns: int)
    requires
        0 <= y,
        0 <= x < columns,
    ensures
        (y * columns + x) % columns == x,
        (y * columns + x) / columns == y,
{
    vstd::arithmetic::div_mod::lemma_fundamental_div_mod_converse(y * columns + x, columns, y, x);
}

/// Every cell of `tile(size, rows, columns)` has sides that are multiples of
/// 4, lies within `size`, and is disjoint from every other cell.
pub proof fn lemma_tile_properties(
    size: (u32, u32),
    rows: usize,
    columns: usize,
    layouts: Seq<LayoutRect>,
)
    requires
        rows >= 1,
        columns >= 1,
        layouts.len() == rows * columns,
        forall|i: int|
            0 <= i < layouts.len() ==> layouts[i] == grid_cell(
                i,
                columns as int,
                cell_side(size.0 as int, columns as int),
                cell_side(size.1 as int, rows as int),
            ),
    ensures
        forall|i: int|
            0 <= i < layouts.len() ==> (#[trigger] layouts[i]).width % 4 == 0 && layouts[i].height
                % 4 == 0,
        forall|i: int|
            0 <= i < layouts.len() ==> (#[trigger] layouts[i]).x + layouts[i].width <= size.0
                && layouts[i].y + layouts[i].height <= size.1,
        forall|i: int, j: int|
            0 <= i < layouts.len() && 0 <= j < layouts.len() && i != j ==> rects_disjoint(
                #[trigger] layouts[i],
                #[trigger] layouts[j],
            ),
{
    let w = cell_side(size.0 as int, columns as int);
    let h = cell_side(size.1 as int, rows as int);
    assert forall|i: int| 0 <= i < layouts.len() implies (#[trigger] layouts[i]).width % 4 == 0
        && layouts[i].height % 4 == 0 by {
        lemma_side_mult_of_4(size.0 as int, columns as int);
        lemma_side_mult_of_4(size.1 as int, rows as int);
    }
    assert forall|i: int| 0 <= i < layouts.len() implies (#[trigger] layouts[i]).x
        + layouts[i].width <= size.0 && layouts[i].y + layouts[i].height <= size.1 by {
        lemma_grid_cell_in_bounds(i, rows as int, columns as int, size, w, h);
    }
    assert forall|i: int, j: int|
        0 <= i < layouts.len() && 0 <= j < layouts.len() && i != j implies rects_disjoint(
        #[trigger] layouts[i],
        #[trigger] layouts[j],
    ) by {
        lemma_grid_cells_disjoint(i, j, rows as int, columns as int, size, w, h);
    }
}

proof fn lemma_side_mult_of_4(len: int, parts: int)
    requires
        0 <= len <= u32::MAX,
        parts >= 1,
    ensures
        (cell_side(len, parts) as u32) % 4 == 0,
{
    let q = (len / parts) / 4;
    lemma_cell_side_in_range(len, parts);
    assert(q * 4 % 4 == 0) by {
        vstd::arithmetic::div_mod::lemma_mod_multiples_basic(q, 4);
        vstd::arithmetic::mul::lemma_mul_is_commutative(q, 4);
    }
}

proof fn lemma_grid_cell_in_bounds(i: int, rows: int, columns: int, size: (u32, u32), w: int, h: int)
    requires
        rows >= 1,
        columns >= 1,
        0 <= i < rows * columns,
        w == cell_side(size.0 as int, columns),
        h == cell_side(size.1 as int, rows),
    ensures
        grid_cell(i, columns, w, h).x + grid_cell(i, columns, w, h).width <= size.0,
        grid_cell(i, columns, w, h).y + grid_cell(i, columns, w, h).height <= size.1,
        grid_cell(i, columns, w, h).x == (i % columns) * w,
        grid_cell(i, columns, w, h).y == (i / columns) * h,
        grid_cell(i, columns, w, h).width == w,
        grid_cell(i, columns, w, h).height == h,
        0 <= i % columns < columns,
        0 <= i / columns < rows,
{
    vstd::arithmetic::div_mod::lemma_mod_bound(i, columns);
    vstd::arithmetic::div_mod::lemma_div_pos_is_pos(i, columns);
    assert(i / columns < rows) by {
        if i / columns >= rows {
            vstd::arithmetic::div_mod::lemma_fundamental_div_mod(i, columns);
            vstd::arithmetic::mul::lemma_mul_inequality(rows, i / columns, columns);
            vstd::arithmetic::mul::lemma_mul_is_commutative(i / columns, columns);
            vstd::arithmetic::mul::lemma_mul_is_commutative(rows, columns);
        }
    }
    let cx = i % columns;
    let cy = i / columns;
    lemma_coord_side(cx, columns, size.0 as int, w);
    lemma_coord_side(cy, rows, size.1 as int, h);
}

proof fn lemma_grid_cells_disjoint(
    i: int,
    j: int,
    rows: int,
    columns: int,
    size: (u32, u32),
    w: int,
    h: int,
)
    requires
        rows >= 1,
        columns >= 1,
        0 <= i < rows * columns,
        0 <= j < rows * columns,
        i != j,
        w == cell_side(size.0 as int, columns),
        h == cell_side(size.1 as int, rows),
    ensures
        rects_disjoint(grid_cell(i, columns, w, h), grid_cell(j, columns, w, h)),
{
    lemma_grid_cell_in_bounds(i, rows, columns, size, w, h);
    lemma_grid_cell_in_bounds(j, rows, columns, size, w, h);
    if i % columns == j % columns && i / columns == j / columns {
        vstd::arithmetic::div_mod::lemma_fundamental_div_mod(i, columns);
        vstd::arithmetic::div_mod::lemma_fundamental_div_mod(j, columns);
        assert(false);
    }
    if i % columns != j % columns {
        let (lo, hi) = if i % columns < j % columns {
            (i % columns, j % columns)
        } else {
            (j % columns, i % columns)
        };
        assert(lo * w + w <= hi * w) by {
            vstd::arithmetic::mul::lemma_mul_inequality(lo + 1, hi, w);
            vstd::arithmetic::mul::lemma_mul_is_distributive_add_other_way(w, lo, 1);
            vstd::arithmetic::mul::lemma_mul_nonnegative(lo, w);
        }
        lemma_coord_side(lo, columns, size.0 as int, w);
        lemma_coord_side(hi, columns, size.0 as int, w);
    } else {
        let (lo, hi) = if i / columns < j / columns {
            (i / columns, j / columns)
        } else {
            (j / columns, i / columns)
        };
        assert(lo * h + h <= hi * h) by {
            vstd::arithmetic::mul::lemma_mul_inequality(lo + 1, hi, h);
            vstd::arithmetic::mul::lemma_mul_is_distributive_add_other_way(h, lo, 1);
            vstd::arithmetic::mul::lemma_mul_nonnegative(lo, h);
        }
        lemma_coord_side(lo, rows, size.1 as int, h);
        lemma_coord_side(hi, rows, size.1 as int, h);
    }
}

} // verus!
