use fluid_grid::state::SimState;

fn default_20x10() -> SimState<f64> {
    // The default construction for a 20x10 run: inflow 30.0, obstacle at
    // (20/3 + 5, 10/2 - 1) with radius ceil(20/7) = 3.
    SimState::new(20, 10, 30.0, 1.0, 0.0, 1.0, 0.0, Some((11, 4, 3)))
}

#[test]
fn fresh_state_has_staggered_dimensions() {
    let st = default_20x10();
    assert_eq!(st.width, 20);
    assert_eq!(st.height, 10);
    assert_eq!((st.u.width, st.u.height), (21, 10));
    assert_eq!((st.v.width, st.v.height), (20, 11));
    assert_eq!((st.s.width, st.s.height), (20, 10));
    assert_eq!((st.p.width, st.p.height), (20, 10));
    assert_eq!((st.smoke.width, st.smoke.height), (20, 10));
}

#[test]
fn fresh_state_inflow_columns_and_quiet_interior() {
    let st = default_20x10();
    for y in 0..10 {
        assert_eq!(st.u.get(0, y), 30.0);
        assert_eq!(st.u.get(20, y), 30.0);
        for x in 1..20 {
            assert_eq!(st.u.get(x, y), 0.0);
        }
    }
    for &v in &st.v.data {
        assert_eq!(v, 0.0);
    }
    for &p in &st.p.data {
        assert_eq!(p, 0.0);
    }
}

#[test]
fn fresh_state_obstacle_disk_exact() {
    let st = default_20x10();
    for y in 0i32..10 {
        for x in 0i32..20 {
            let d2 = (x - 11) * (x - 11) + (y - 4) * (y - 4);
            let expect = if d2 <= 9 { 0.0 } else { 1.0 };
            assert_eq!(st.s.get(x as usize, y as usize), expect);
        }
    }
}

#[test]
fn fresh_state_smoke_band_centred_and_clamped() {
    // Height 20: the 11-cell band covers rows 5..=15 of column 0 only.
    let st: SimState<f64> = SimState::new(8, 20, 30.0, 1.0, 0.0, 1.0, 0.0, None);
    for y in 0..20 {
        for x in 0..8 {
            let expect = if x == 0 && (5..=15).contains(&y) { 1.0 } else { 0.0 };
            assert_eq!(st.smoke.get(x, y), expect);
        }
    }
    // Height 10: the band spills past both edges and is clamped, so the
    // whole of column 0 is seeded.
    let st = default_20x10();
    for y in 0..10 {
        for x in 0..20 {
            let expect = if x == 0 { 1.0 } else { 0.0 };
            assert_eq!(st.smoke.get(x, y), expect);
        }
    }
}

#[test]
fn no_obstacle_mask_all_open() {
    let st: SimState<f64> = SimState::new(10, 10, 30.0, 1.0, 0.0, 1.0, 0.0, None);
    for &s in &st.s.data {
        assert_eq!(s, 1.0);
    }
}

#[test]
fn rebuild_equals_fresh_field_for_field() {
    // Scenario: construct, disturb everything, then fully reset; the
    // result equals a freshly constructed state field for field.
    let fresh = default_20x10();
    let mut st = default_20x10();
    st.u.put(5, 5, -3.25);
    st.v.put(7, 2, 1.5);
    st.p.put(0, 0, 99.0);
    st.smoke.put(3, 3, 0.5);
    st.draw_filled_circle(2, 2, 2, 0.0);
    st.reset_velocities(30.0, 1.0, 0.0, 1.0, 0.0, Some((11, 4, 3)));

    assert_eq!(st.width, fresh.width);
    assert_eq!(st.height, fresh.height);
    assert_eq!(st.u.data, fresh.u.data);
    assert_eq!(st.v.data, fresh.v.data);
    assert_eq!(st.s.data, fresh.s.data);
    assert_eq!(st.p.data, fresh.p.data);
    assert_eq!(st.smoke.data, fresh.smoke.data);
}

#[test]
fn reset_walls_touches_only_the_mask() {
    let fresh = default_20x10();
    let mut st = default_20x10();
    st.reset_walls(1.0);
    for &s in &st.s.data {
        assert_eq!(s, 1.0);
    }
    assert_eq!(st.u.data, fresh.u.data);
    assert_eq!(st.v.data, fresh.v.data);
    assert_eq!(st.p.data, fresh.p.data);
    assert_eq!(st.smoke.data, fresh.smoke.data);
}

#[test]
fn state_draw_touches_only_the_mask() {
    let fresh: SimState<f64> = SimState::new(9, 9, 30.0, 1.0, 0.0, 1.0, 0.0, None);
    let mut st = fresh.clone();
    st.draw_filled_circle(4, 4, 2, 0.0);
    for y in 0i32..9 {
        for x in 0i32..9 {
            let d2 = (x - 4) * (x - 4) + (y - 4) * (y - 4);
            let expect = if d2 <= 4 { 0.0 } else { 1.0 };
            assert_eq!(st.s.get(x as usize, y as usize), expect);
        }
    }
    assert_eq!(st.u.data, fresh.u.data);
    assert_eq!(st.v.data, fresh.v.data);
    assert_eq!(st.p.data, fresh.p.data);
    assert_eq!(st.smoke.data, fresh.smoke.data);
}

#[test]
fn accessors_expose_the_fields() {
    let st = default_20x10();
    assert_eq!(st.get_smoke(), &st.smoke.data);
    assert_eq!(st.get_pressure(), &st.p.data);
    assert_eq!(st.get_s(), &st.s.data);
}

#[test]
fn reset_velocities_restores_inflow() {
    let mut st = default_20x10();
    st.u.put(0, 4, 0.0);
    st.u.put(20, 7, -1.0);
    st.reset_velocities(30.0, 1.0, 0.0, 1.0, 0.0, Some((11, 4, 3)));
    for y in 0..10 {
        assert_eq!(st.u.get(0, y), 30.0);
        assert_eq!(st.u.get(20, y), 30.0);
    }
}
