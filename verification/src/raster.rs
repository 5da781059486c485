//! Obstacle editing: filled-disk rasterization into a mask grid, and the
//! law tying a full mask reset and a subsequent disk draw together.

use vstd::prelude::*;

use crate::grid::all_cells_are;
use crate::grid::Array2D;

verus! {

/// `(x, y)` lies in the closed disk of radius `r` around `(cx, cy)`:
/// the squared distance is at most `r * r`.
pub open spec fn in_disk(x: int, y: int, cx: int, cy: int, r: int) -> bool {
    (x - cx) * (x - cx) + (y - cy) * (y - cy) <= r * r
}

/// `after` is `before` with every in-bounds cell of the disk of radius
/// `radius` around `(cx, cy)` overwritten by `value` and every other cell
/// untouched; a negative radius changes nothing.
pub open spec fn disk_drawn<T>(
    before: Array2D<T>,
    after: Array2D<T>,
    cx: int,
    cy: int,
    radius: int,
    value: T,
) -> bool {
    &&& after.wf()
    &&& after.same_shape(before)
    &&& forall|x: int, y: int|
        #![all_triggers]
        before.in_bounds(x, y) ==> after.cell(x, y) == (if radius >= 0 && in_disk(
            x,
            y,
            cx,
            cy,
            radius,
        ) {
            value
        } else {
            before.cell(x, y)
        })
}

/// Every point of the disk lies inside the surrounding box of half-width `r`.
pub proof fn lemma_disk_in_box(x: int, y: int, cx: int, cy: int, r: int)
    requires
        r >= 0,
        in_disk(x, y, cx, cy, r),
    ensures
        cx - r <= x <= cx + r,
        cy - r <= y <= cy + r,
{
    assert(cx - r <= x <= cx + r && cy - r <= y <= cy + r) by (nonlinear_arith)
        requires
            r >= 0,
            (x - cx) * (x - cx) + (y - cy) * (y - cy) <= r * r,
    ;
}

/// Rasterizes a filled disk: every in-bounds cell whose squared distance to
/// `(center_x, center_y)` is at most `radius * radius` becomes `value`; all
/// other cells are untouched. A negative radius draws nothing. Callers with
/// a fractional radius pass its ceiling.
#[verifier::loop_isolation(false)]
pub fn draw_filled_circle<T: Copy>(
    pixels: &mut Array2D<T>,
    center_x: i32,
    center_y: i32,
    radius: i32,
    value: T,
)
    requires
        old(pixels).wf(),
    ensures
        disk_drawn(
            *old(pixels),
            *final(pixels),
            center_x as int,
            center_y as int,
            radius as int,
            value,
        ),
{
    if radius < 0 {
        return ;
    }
    let cx = center_x as i64;
    let cy = center_y as i64;
    let r = radius as i64;
    let ghost g0 = *pixels;
    proof {
        assert forall|gx: int, gy: int|
            in_disk(gx, gy, cx as int, cy as int, r as int) implies cx - r <= gx <= cx + r && cy - r
            <= gy <= cy + r by {
            lemma_disk_in_box(gx, gy, cx as int, cy as int, r as int);
        }
    }
    let mut y: i64 = cy - r;
    while y <= cy + r
        invariant
            pixels.wf(),
            pixels.same_shape(g0),
            cy - r <= y <= cy + r + 1,
            forall|gx: int, gy: int|
                #![all_triggers]
                g0.in_bounds(gx, gy) ==> pixels.cell(gx, gy) == (if in_disk(
                    gx,
                    gy,
                    cx as int,
                    cy as int,
                    r as int,
                ) && gy < y {
                    value
                } else {
                    g0.cell(gx, gy)
                }),
        decreases cy + r + 1 - y,
    {
        let mut x: i64 = cx - r;
        while x <= cx + r
            invariant
                pixels.wf(),
                pixels.same_shape(g0),
                cx - r <= x <= cx + r + 1,
                forall|gx: int, gy: int|
                    #![all_triggers]
                    g0.in_bounds(gx, gy) ==> pixels.cell(gx, gy) == (if in_disk(
                        gx,
                        gy,
                        cx as int,
                        cy as int,
                        r as int,
                    ) && (gy < y || (gy == y && gx < x)) {
                        value
                    } else {
                        g0.cell(gx, gy)
                    }),
            decreases cx + r + 1 - x,
        {
            if x >= 0 && y >= 0 && (x as usize) < pixels.width && (y as usize) < pixels.height {
                let dx = x - cx;
                let dy = y - cy;
                proof {
                    assert(dx * dx <= 0x3fffffff00000001 && dy * dy <= 0x3fffffff00000001 && r * r
                        <= 0x3fffffff00000001 && dx * dx >= 0 && dy * dy >= 0) by (nonlinear_arith)
                        requires
                            -0x7fffffff <= dx <= 0x7fffffff,
                            -0x7fffffff <= dy <= 0x7fffffff,
                            0 <= r <= 0x7fffffff,
                    ;
                }
                if dx * dx + dy * dy <= r * r {
                    pixels.put(x as usize, y as usize, value);
                }
            }
            x = x + 1;
        }
        y = y + 1;
    }
    proof {
        assert forall|gx: int, gy: int|
            g0.in_bounds(gx, gy) && in_disk(gx, gy, cx as int, cy as int, r as int) implies gy
            < y by {
            lemma_disk_in_box(gx, gy, cx as int, cy as int, r as int);
        }
    }
}

/// Mask law: after a full reset of the mask to the open value, drawing a
/// filled disk leaves exactly the disk cells at the drawn value and every
/// other cell still open.
pub proof fn lemma_reset_then_draw_exact<T>(
    reset_mask: Array2D<T>,
    drawn_mask: Array2D<T>,
    open_value: T,
    cx: int,
    cy: int,
    radius: int,
    drawn_value: T,
)
    requires
        radius >= 0,
        all_cells_are(reset_mask, open_value),
        disk_drawn(reset_mask, drawn_mask, cx, cy, radius, drawn_value),
    ensures
        forall|x: int, y: int|
            #![all_triggers]
            drawn_mask.in_bounds(x, y) ==> drawn_mask.cell(x, y) == (if in_disk(
                x,
                y,
                cx,
                cy,
                radius,
            ) {
                drawn_value
            } else {
                open_value
            }),
{
}

/// Rebuild law: the reset-then-draw pipeline is deterministic, so a state
/// discarded and rebuilt with the same dimensions and parameters equals a
/// freshly constructed one cell for cell.
pub proof fn lemma_rebuild_equal<T>(
    first_reset: Array2D<T>,
    first_drawn: Array2D<T>,
    second_reset: Array2D<T>,
    second_drawn: Array2D<T>,
    open_value: T,
    cx: int,
    cy: int,
    radius: int,
    drawn_value: T,
)
    requires
        radius >= 0,
        second_reset.same_shape(first_reset),
        all_cells_are(first_reset, open_value),
        all_cells_are(second_reset, open_value),
        disk_drawn(first_reset, first_drawn, cx, cy, radius, drawn_value),
        disk_drawn(second_reset, second_drawn, cx, cy, radius, drawn_value),
    ensures
        second_drawn.same_shape(first_drawn),
        forall|x: int, y: int|
            first_drawn.in_bounds(x, y) ==> #[trigger] first_drawn.cell(x, y)
                == second_drawn.cell(x, y),
{
    lemma_reset_then_draw_exact(
        first_reset,
        first_drawn,
        open_value,
        cx,
        cy,
        radius,
        drawn_value,
    );
    lemma_reset_then_draw_exact(
        second_reset,
        second_drawn,
        open_value,
        cx,
        cy,
        radius,
        drawn_value,
    );
}

} // verus!
