//! Simulation state: the five staggered fields, their construction with
//! inflow columns, optional obstacle and smoke inlet band, and the full
//! resets. Generic over the cell type; the numeric front end instantiates
//! it with its scalar.

use vstd::prelude::*;

use crate::grid::all_cells_are;
use crate::grid::lemma_boundary_columns_exact;
use crate::grid::lemma_same_cells_same_data;
use crate::grid::Array2D;
use crate::raster::draw_filled_circle;
use crate::raster::in_disk;

verus! {

/// The five fields of the simulation. `u` and `v` are one cell larger
/// along their own axis (staggered grid); `s`, `p` and `smoke` are cell
/// centered.
#[derive(Clone)]
pub struct SimState<T> {
    pub width: usize,
    pub height: usize,
    pub u: Array2D<T>,
    pub v: Array2D<T>,
    pub s: Array2D<T>,
    pub p: Array2D<T>,
    pub smoke: Array2D<T>,
}

impl<T> SimState<T> {
    /// Every field is well-formed with the staggered dimensions.
    pub open spec fn wf(self) -> bool {
        &&& self.u.wf() && self.u.width == self.width + 1 && self.u.height == self.height
        &&& self.v.wf() && self.v.width == self.width && self.v.height == self.height + 1
        &&& self.s.wf() && self.s.width == self.width && self.s.height == self.height
        &&& self.p.wf() && self.p.width == self.width && self.p.height == self.height
        &&& self.smoke.wf() && self.smoke.width == self.width && self.smoke.height == self.height
    }
}

/// Row `y` lies in the 11-cell inlet band centred vertically on a grid of
/// the given height.
pub open spec fn in_smoke_band(y: int, height: int) -> bool {
    height / 2 - 5 <= y <= height / 2 + 5
}

/// The state a fresh construction (and a full reset) produces:
/// - `u`: `wind` on both boundary columns, `still` in the interior;
/// - `v`, `p`: `still` everywhere;
/// - `s`: `open_value` everywhere except an optional obstacle disk at
///   `closed_value`;
/// - `smoke`: `smoke_value` on the clamped inlet band of column 0, `still`
///   elsewhere.
pub open spec fn initial_state<T>(
    r: SimState<T>,
    wind: T,
    open_value: T,
    closed_value: T,
    smoke_value: T,
    still: T,
    obstacle: Option<(i32, i32, i32)>,
) -> bool {
    &&& r.wf()
    &&& forall|x: int, y: int|
        #![all_triggers]
        r.u.in_bounds(x, y) ==> r.u.cell(x, y) == (if x == 0 || x == r.width {
            wind
        } else {
            still
        })
    &&& all_cells_are(r.v, still)
    &&& all_cells_are(r.p, still)
    &&& forall|x: int, y: int|
        #![all_triggers]
        r.s.in_bounds(x, y) ==> r.s.cell(x, y) == (match obstacle {
            Option::Some(ob) => if ob.2 >= 0 && in_disk(x, y, ob.0 as int, ob.1 as int, ob.2 as int) {
                closed_value
            } else {
                open_value
            },
            Option::None => open_value,
        })
    &&& forall|x: int, y: int|
        #![all_triggers]
        r.smoke.in_bounds(x, y) ==> r.smoke.cell(x, y) == (if x == 0 && in_smoke_band(
            y,
            r.height as int,
        ) {
            smoke_value
        } else {
            still
        })
}

impl<T: Copy> SimState<T> {
    /// Builds the initial state: quiescent fields, inflow on both boundary
    /// columns of `u`, an optional obstacle disk carved into the mask, and
    /// the smoke inlet band clamped to the grid.
    pub fn new(
        width: usize,
        height: usize,
        wind: T,
        open_value: T,
        closed_value: T,
        smoke_value: T,
        still: T,
        obstacle: Option<(i32, i32, i32)>,
    ) -> (r: Self)
        requires
            width < usize::MAX,
            height < usize::MAX,
            (width + 1) * height <= usize::MAX,
            width * (height + 1) <= usize::MAX,
        ensures
            r.width == width,
            r.height == height,
            initial_state(r, wind, open_value, closed_value, smoke_value, still, obstacle),
    {
        proof {
            assert(width * height <= (width + 1) * height && width * height <= width * (height
                + 1)) by (nonlinear_arith)
                requires
                    width >= 0,
                    height >= 0,
            ;
        }
        let mut u = Array2D::<T>::fill(still, width + 1, height);
        let ghost u0 = u;
        if height > 0 {
            u.fill_rect(0, 0, 0, height - 1, wind);
            let ghost u1 = u;
            u.fill_rect(width, 0, width, height - 1, wind);
            proof {
                lemma_boundary_columns_exact(u0, u1, u, width as int, wind);
            }
        }

        let mut s = Array2D::<T>::fill(open_value, width, height);
        let ghost s0 = s;
        match obstacle {
            Option::Some((ox, oy, orad)) => {
                draw_filled_circle(&mut s, ox, oy, orad, closed_value);
            },
            Option::None => {},
        }

        let mut smoke = Array2D::<T>::fill(still, width, height);
        let center = height / 2;
        let band_lo = if center >= 5 {
            center - 5
        } else {
            0
        };
        smoke.fill_rect(0, band_lo, 0, center + 5, smoke_value);

        SimState {
            width,
            height,
            u,
            v: Array2D::fill(still, width, height + 1),
            s,
            p: Array2D::fill(still, width, height),
            smoke,
        }
    }

    /// Restores every mask cell to the open value; velocities, pressure
    /// and smoke are untouched.
    pub fn reset_walls(&mut self, open_value: T)
        requires
            old(self).wf(),
        ensures
            final(self).wf(),
            final(self).width == old(self).width,
            final(self).height == old(self).height,
            all_cells_are(final(self).s, open_value),
            final(self).u == old(self).u,
            final(self).v == old(self).v,
            final(self).p == old(self).p,
            final(self).smoke == old(self).smoke,
    {
        self.s.reset(open_value);
    }

    /// Carves a filled disk of `closed_value` into the mask; every other
    /// field is untouched.
    pub fn draw_filled_circle(&mut self, center_x: i32, center_y: i32, radius: i32, closed_value: T)
        requires
            old(self).wf(),
        ensures
            final(self).wf(),
            final(self).width == old(self).width,
            final(self).height == old(self).height,
            crate::raster::disk_drawn(
                old(self).s,
                final(self).s,
                center_x as int,
                center_y as int,
                radius as int,
                closed_value,
            ),
            final(self).u == old(self).u,
            final(self).v == old(self).v,
            final(self).p == old(self).p,
            final(self).smoke == old(self).smoke,
    {
        draw_filled_circle(&mut self.s, center_x, center_y, radius, closed_value);
    }

    /// Discards the whole state and rebuilds it with the same dimensions,
    /// as fresh construction would.
    pub fn reset_velocities(
        &mut self,
        wind: T,
        open_value: T,
        closed_value: T,
        smoke_value: T,
        still: T,
        obstacle: Option<(i32, i32, i32)>,
    )
        requires
            old(self).wf(),
        ensures
            final(self).width == old(self).width,
            final(self).height == old(self).height,
            initial_state(
                *final(self),
                wind,
                open_value,
                closed_value,
                smoke_value,
                still,
                obstacle,
            ),
    {
        let w = self.width;
        let h = self.height;
        let n_u = self.u.data.len();
        let n_v = self.v.data.len();
        assert((w + 1) * h == n_u);
        assert(w * (h + 1) == n_v);
        *self = Self::new(w, h, wind, open_value, closed_value, smoke_value, still, obstacle);
    }

    /// The smoke density field, row-major.
    pub fn get_smoke(&self) -> (r: &Vec<T>)
        ensures
            r == &self.smoke.data,
    {
        &self.smoke.data
    }

    /// The pressure field, row-major.
    pub fn get_pressure(&self) -> (r: &Vec<T>)
        ensures
            r == &self.p.data,
    {
        &self.p.data
    }

    /// The openness mask, row-major.
    pub fn get_s(&self) -> (r: &Vec<T>)
        ensures
            r == &self.s.data,
    {
        &self.s.data
    }
}

/// Rebuild law: the initial state is uniquely determined by the dimensions
/// and parameters, so a state rebuilt by a full reset equals a freshly
/// constructed one field for field.
pub proof fn lemma_initial_state_unique<T>(
    a: SimState<T>,
    b: SimState<T>,
    wind: T,
    open_value: T,
    closed_value: T,
    smoke_value: T,
    still: T,
    obstacle: Option<(i32, i32, i32)>,
)
    requires
        a.width == b.width,
        a.height == b.height,
        initial_state(a, wind, open_value, closed_value, smoke_value, still, obstacle),
        initial_state(b, wind, open_value, closed_value, smoke_value, still, obstacle),
    ensures
        a.u.data@ == b.u.data@,
        a.v.data@ == b.v.data@,
        a.s.data@ == b.s.data@,
        a.p.data@ == b.p.data@,
        a.smoke.data@ == b.smoke.data@,
{
    lemma_same_cells_same_data(a.u, b.u);
    lemma_same_cells_same_data(a.v, b.v);
    lemma_same_cells_same_data(a.s, b.s);
    lemma_same_cells_same_data(a.p, b.p);
    lemma_same_cells_same_data(a.smoke, b.smoke);
}

} // verus!
