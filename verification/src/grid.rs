//! Dense, bounds-checked 2D array addressed by `(column, row)`, row-major.

use vstd::prelude::*;

verus! {

/// Width x height dense mapping from `(col, row)` to `T`, stored row-major.
///
/// Well-formed values hold exactly `width * height` elements; every access
/// must lie in `[0, width) x [0, height)`.
#[derive(Clone)]
pub struct Array2D<T> {
    pub data: Vec<T>,
    pub width: usize,
    pub height: usize,
}

impl<T> Array2D<T> {
    /// The stored element count matches the declared dimensions.
    pub open spec fn wf(self) -> bool {
        self.data.len() == self.width * self.height
    }

    /// `(x, y)` lies inside the stored extent.
    pub open spec fn in_bounds(self, x: int, y: int) -> bool {
        0 <= x < self.width && 0 <= y < self.height
    }

    /// The element stored at column `x`, row `y`.
    pub open spec fn cell(self, x: int, y: int) -> T {
        self.data[y * self.width + x]
    }

    /// `other` has the same dimensions as `self`.
    pub open spec fn same_shape(self, other: Self) -> bool {
        self.width == other.width && self.height == other.height
    }

    /// Wraps an already row-major vector; the length must match the
    /// dimensions, so the result is well-formed.
    pub fn from_vec(value: Vec<T>, width: usize, height: usize) -> (r: Self)
        requires
            value.len() == width * height,
        ensures
            r.wf(),
            r.width == width,
            r.height == height,
            r.data == value,
    {
        Array2D { data: value, width, height }
    }
}

/// Every in-bounds cell of `g` holds `value`.
pub open spec fn all_cells_are<T>(g: Array2D<T>, value: T) -> bool {
    forall|x: int, y: int| g.in_bounds(x, y) ==> #[trigger] g.cell(x, y) == value
}

/// `after` is `before` with every in-bounds cell of the (clamped) closed
/// rectangle `[x0, x1] x [y0, y1]` overwritten by `value` and every other
/// cell untouched.
pub open spec fn rect_filled<T>(
    before: Array2D<T>,
    after: Array2D<T>,
    x0: int,
    y0: int,
    x1: int,
    y1: int,
    value: T,
) -> bool {
    &&& after.wf()
    &&& after.same_shape(before)
    &&& forall|x: int, y: int|
        #![all_triggers]
        before.in_bounds(x, y) ==> after.cell(x, y) == (if x0 <= x <= x1 && y0 <= y <= y1 {
            value
        } else {
            before.cell(x, y)
        })
}

/// Boundary-inflow law: filling the leftmost column and then the column
/// `right` of a grid pins both columns to `value` for every row and leaves
/// every other column as it was.
pub proof fn lemma_boundary_columns_exact<T>(
    g0: Array2D<T>,
    g1: Array2D<T>,
    g2: Array2D<T>,
    right: int,
    value: T,
)
    requires
        g0.wf(),
        0 <= right < g0.width,
        rect_filled(g0, g1, 0, 0, 0, g0.height - 1, value),
        rect_filled(g1, g2, right, 0, right, g0.height - 1, value),
    ensures
        g2.wf(),
        g2.same_shape(g0),
        forall|y: int| 0 <= y < g0.height ==> #[trigger] g2.cell(0, y) == value,
        forall|y: int| 0 <= y < g0.height ==> #[trigger] g2.cell(right, y) == value,
        forall|x: int, y: int|
            #![all_triggers]
            g0.in_bounds(x, y) && x != 0 && x != right ==> g2.cell(x, y) == g0.cell(x, y),
{
}

/// Two well-formed grids of the same shape that agree on every cell hold
/// the same data, element for element.
pub proof fn lemma_same_cells_same_data<T>(a: Array2D<T>, b: Array2D<T>)
    requires
        a.wf(),
        b.wf(),
        a.same_shape(b),
        forall|x: int, y: int| a.in_bounds(x, y) ==> #[trigger] a.cell(x, y) == b.cell(x, y),
    ensures
        a.data@ == b.data@,
{
    let w = a.width as int;
    let h = a.height as int;
    assert forall|i: int| 0 <= i < a.data@.len() implies a.data@[i] == b.data@[i] by {
        assert(w > 0) by (nonlinear_arith)
            requires
                w >= 0,
                0 <= i < w * h,
        ;
        vstd::arithmetic::div_mod::lemma_fundamental_div_mod(i, w);
        vstd::arithmetic::div_mod::lemma_mod_bound(i, w);
        let y = i / w;
        let x = i % w;
        assert(0 <= y < h && y * w + x == i) by (nonlinear_arith)
            requires
                w > 0,
                0 <= i < w * h,
                i == w * y + x,
                0 <= x < w,
        ;
        assert(a.in_bounds(x, y));
        assert(a.cell(x, y) == b.cell(x, y));
    }
    assert(a.data@ =~= b.data@);
}

/// The flat row-major position of `(x, y)` lies inside a `w * h` buffer.
pub proof fn lemma_row_major_index(w: int, h: int, x: int, y: int)
    requires
        0 <= x < w,
        0 <= y < h,
    ensures
        0 <= y * w + x < w * h,
{
    assert(0 <= y * w + x < w * h) by (nonlinear_arith)
        requires
            0 <= x < w,
            0 <= y < h,
    ;
}

/// Distinct in-bounds coordinates occupy distinct flat positions.
pub proof fn lemma_row_major_injective(w: int, h: int, x1: int, y1: int, x2: int, y2: int)
    requires
        0 <= x1 < w,
        0 <= y1 < h,
        0 <= x2 < w,
        0 <= y2 < h,
        !(x1 == x2 && y1 == y2),
    ensures
        y1 * w + x1 != y2 * w + x2,
{
    assert(y1 * w + x1 != y2 * w + x2) by (nonlinear_arith)
        requires
            0 <= x1 < w,
            0 <= y1 < h,
            0 <= x2 < w,
            0 <= y2 < h,
            !(x1 == x2 && y1 == y2),
    ;
}

impl<T: Copy> Array2D<T> {
    /// Uniformly filled grid: every cell holds `data`.
    pub fn fill(data: T, width: usize, height: usize) -> (r: Self)
        requires
            width * height <= usize::MAX,
        ensures
            r.wf(),
            r.width == width,
            r.height == height,
            all_cells_are(r, data),
    {
        let n = width * height;
        let mut buf: Vec<T> = Vec::new();
        let mut i: usize = 0;
        while i < n
            invariant
                i <= n,
                buf.len() == i,
                forall|k: int| 0 <= k < i ==> buf[k] == data,
            decreases n - i,
        {
            buf.push(data);
            i = i + 1;
        }
        let r = Array2D { data: buf, width, height };
        proof {
            assert forall|x: int, y: int| r.in_bounds(x, y) implies #[trigger] r.cell(x, y)
                == data by {
                lemma_row_major_index(width as int, height as int, x, y);
            }
        }
        r
    }

    /// Reads the element at `(x, y)`.
    pub fn get(&self, x: usize, y: usize) -> (r: T)
        requires
            self.wf(),
            x < self.width,
            y < self.height,
        ensures
            r == self.cell(x as int, y as int),
    {
        proof {
            lemma_row_major_index(self.width as int, self.height as int, x as int, y as int);
        }
        self.data[y * self.width + x]
    }

    /// Overwrites the element at `(x, y)`; every other cell is untouched.
    pub fn put(&mut self, x: usize, y: usize, value: T)
        requires
            old(self).wf(),
            x < old(self).width,
            y < old(self).height,
        ensures
            final(self).wf(),
            final(self).same_shape(*old(self)),
            final(self).data@ == old(self).data@.update(
                y * old(self).width + x,
                value,
            ),
            final(self).cell(x as int, y as int) == value,
            forall|x2: int, y2: int|
                #![all_triggers]
                old(self).in_bounds(x2, y2) && !(x2 == x && y2 == y) ==> final(self).cell(x2, y2)
                    == old(self).cell(x2, y2),
    {
        proof {
            lemma_row_major_index(self.width as int, self.height as int, x as int, y as int);
        }
        let i = y * self.width + x;
        self.data.set(i, value);
        proof {
            assert forall|x2: int, y2: int|
                old(self).in_bounds(x2, y2) && !(x2 == x && y2 == y) implies #[trigger] self.cell(
                x2,
                y2,
            ) == old(self).cell(x2, y2) by {
                lemma_row_major_index(self.width as int, self.height as int, x2, y2);
                lemma_row_major_injective(
                    self.width as int,
                    self.height as int,
                    x2,
                    y2,
                    x as int,
                    y as int,
                );
            }
        }
    }

    /// Boundary-aware query: inside the stored extent this returns the
    /// stored value; on the one-cell ring just outside (`x == -1`,
    /// `x == width`, `y == -1` or `y == height`) it returns `border`. Any
    /// coordinate further out is a caller error and is excluded.
    pub fn get_or_border(&self, x: i32, y: i32, border: T) -> (r: T)
        requires
            self.wf(),
            x == -1 || y == -1 || x == self.width || y == self.height || self.in_bounds(
                x as int,
                y as int,
            ),
        ensures
            r == (if self.in_bounds(x as int, y as int) {
                self.cell(x as int, y as int)
            } else {
                border
            }),
    {
        if x >= 0 && y >= 0 && (x as usize) < self.width && (y as usize) < self.height {
            self.get(x as usize, y as usize)
        } else {
            border
        }
    }

    /// Sets every in-bounds cell with `x0 <= x <= x1` and `y0 <= y <= y1`
    /// to `value`; the rectangle is clamped to the stored extent and every
    /// other cell is untouched.
    #[verifier::loop_isolation(false)]
    pub fn fill_rect(&mut self, x0: usize, y0: usize, x1: usize, y1: usize, value: T)
        requires
            old(self).wf(),
        ensures
            rect_filled(
                *old(self),
                *final(self),
                x0 as int,
                y0 as int,
                x1 as int,
                y1 as int,
                value,
            ),
    {
        let ghost g0 = *self;
        let mut y = y0;
        while y < self.height && y <= y1
            invariant
                self.wf(),
                self.same_shape(g0),
                y0 <= y,
                forall|gx: int, gy: int|
                    #![all_triggers]
                    g0.in_bounds(gx, gy) ==> self.cell(gx, gy) == (if x0 <= gx <= x1 && y0 <= gy
                        < y && gy <= y1 {
                        value
                    } else {
                        g0.cell(gx, gy)
                    }),
            decreases y1 + 1 - y,
        {
            let mut x = x0;
            while x < self.width && x <= x1
                invariant
                    self.wf(),
                    self.same_shape(g0),
                    x0 <= x,
                    y < g0.height,
                    forall|gx: int, gy: int|
                        #![all_triggers]
                        g0.in_bounds(gx, gy) ==> self.cell(gx, gy) == (if x0 <= gx <= x1 && ((y0
                            <= gy < y && gy <= y1) || (gy == y && x0 <= gx < x)) {
                            value
                        } else {
                            g0.cell(gx, gy)
                        }),
                decreases x1 + 1 - x,
            {
                self.put(x, y, value);
                x = x + 1;
            }
            y = y + 1;
        }
    }

    /// Bulk overwrite: every cell becomes `value`; the dimensions stay.
    pub fn reset(&mut self, value: T)
        requires
            old(self).wf(),
        ensures
            final(self).wf(),
            final(self).same_shape(*old(self)),
            all_cells_are(*final(self), value),
    {
        let w = self.width;
        let h = self.height;
        let n = self.data.len();
        assert(w * h == n);
        *self = Self::fill(value, w, h);
    }
}

impl<T: Copy + Default> Array2D<T> {
    /// Default-initialized grid: every cell holds the same default value.
    pub fn new(width: usize, height: usize) -> (r: Self)
        requires
            width * height <= usize::MAX,
        ensures
            r.wf(),
            r.width == width,
            r.height == height,
            forall|x: int, y: int|
                r.in_bounds(x, y) ==> call_ensures(T::default, (), #[trigger] r.cell(x, y)),
            forall|x1: int, y1: int, x2: int, y2: int|
                r.in_bounds(x1, y1) && r.in_bounds(x2, y2) ==> #[trigger] r.cell(x1, y1)
                    == #[trigger] r.cell(x2, y2),
    {
        Self::fill(T::default(), width, height)
    }

    /// Bulk overwrite with the default value; the dimensions stay.
    pub fn zero(&mut self)
        requires
            old(self).wf(),
        ensures
            final(self).wf(),
            final(self).same_shape(*old(self)),
            forall|x: int, y: int|
                final(self).in_bounds(x, y) ==> call_ensures(
                    T::default,
                    (),
                    #[trigger] final(self).cell(x, y),
                ),
            forall|x1: int, y1: int, x2: int, y2: int|
                final(self).in_bounds(x1, y1) && final(self).in_bounds(x2, y2)
                    ==> #[trigger] final(self).cell(x1, y1) == #[trigger] final(self).cell(x2, y2),
    {
        self.reset(T::default());
    }
}

} // verus!
