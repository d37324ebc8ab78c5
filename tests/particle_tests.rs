use particle::{
    Interpolate, ParticleSystem, ParticleSystemBuilder, RenderRecord, StartParam, Transition,
    Vec2, DEFAULT_SIZE, NORM_ONE,
};

fn size_curve() -> Transition<u32> {
    let mut t: Transition<u32> = Transition::new();
    t.add(0, 10);
    t.add(NORM_ONE, 20);
    t
}

#[test]
fn transition_edges_take_first_and_last_values() {
    let mut t: Transition<i64> = Transition::new();
    t.add(NORM_ONE / 4, 100);
    t.add(NORM_ONE / 2, 300);
    t.add(3 * NORM_ONE / 4, -100);
    assert_eq!(t.evaluate(0), Some(100));
    assert_eq!(t.evaluate(NORM_ONE as i64), Some(-100));
    assert_eq!(t.evaluate(-5), Some(100));
    assert_eq!(t.evaluate(NORM_ONE as i64 + 7), Some(-100));
}

#[test]
fn transition_interpolates_inside_a_segment() {
    let mut t: Transition<i64> = Transition::new();
    t.add(0, 0);
    t.add(NORM_ONE, 1000);
    assert_eq!(t.evaluate((NORM_ONE / 2) as i64), Some(500));
    assert_eq!(t.evaluate((NORM_ONE / 10) as i64), Some(100));
    let mut down: Transition<i64> = Transition::new();
    down.add(0, 10);
    down.add(NORM_ONE, 0);
    // 10 - 10 * 0.25 = 7.5, rounded toward the start value
    assert_eq!(down.evaluate((NORM_ONE / 4) as i64), Some(8));
}

#[test]
fn transition_segment_fraction_is_local() {
    let mut t: Transition<i64> = Transition::new();
    t.add(NORM_ONE / 2, 0);
    t.add(NORM_ONE, 100);
    // three quarters of the way is half-way through the segment
    assert_eq!(t.evaluate((3 * NORM_ONE / 4) as i64), Some(50));
}

#[test]
fn transition_without_breakpoints_has_no_value() {
    let t: Transition<i64> = Transition::new();
    assert_eq!(t.evaluate(0), None);
    assert_eq!(t.len(), 0);
}

#[test]
fn transition_add_replaces_on_equal_time_and_ignores_out_of_range() {
    let mut t: Transition<i64> = Transition::new();
    t.add(NORM_ONE / 2, 1);
    t.add(NORM_ONE / 2, 2);
    assert_eq!(t.len(), 1);
    assert_eq!(t.evaluate(0), Some(2));
    t.add(NORM_ONE + 1, 9);
    assert_eq!(t.len(), 1);
    t.add(0, 5);
    assert_eq!(t.len(), 2);
    assert_eq!(t.evaluate(0), Some(5));
}

#[test]
fn transition_of_points_blends_each_component() {
    let mut t: Transition<Vec2> = Transition::new();
    t.add(0, Vec2::new(0, 100));
    t.add(NORM_ONE, Vec2::new(100, 0));
    assert_eq!(t.evaluate((NORM_ONE / 4) as i64), Some(Vec2::new(25, 75)));
}

#[test]
fn interp_saturates_above_one() {
    assert_eq!(3i64.interp(&9, NORM_ONE * 5), 9);
    assert_eq!(3u32.interp(&9, 0), 3);
}

#[test]
fn fixed_start_param_always_resolves_to_its_value() {
    let p = StartParam::Fixed(5i64);
    for _ in 0..10_000 {
        assert_eq!(p.resolve(), 5);
    }
}

#[test]
fn uniform_start_param_stays_in_range_with_the_expected_mean() {
    let p = StartParam::UniformRange(2000i64, 4000);
    let mut sum: f64 = 0.0;
    for _ in 0..10_000 {
        let v = p.resolve();
        assert!(2000 <= v && v < 4000);
        sum += v as f64;
    }
    let mean = sum / 10_000.0;
    assert!((mean - 3000.0).abs() < 50.0, "mean {}", mean);
}

#[test]
fn degenerate_range_resolves_to_its_low_end() {
    assert_eq!(StartParam::UniformRange(7i64, 7).resolve(), 7);
    assert_eq!(StartParam::UniformRange(7i64, 3).resolve(), 7);
}

#[test]
fn point_param_draws_each_component_in_range() {
    let p = StartParam::UniformRange(Vec2::new(-10, 0), Vec2::new(10, 1));
    for _ in 0..1000 {
        let v = p.resolve_point();
        assert!(-10 <= v.x && v.x < 10);
        assert_eq!(v.y, 0);
    }
    assert_eq!(StartParam::Fixed(Vec2::new(3, 4)).resolve_point(), Vec2::new(3, 4));
}

#[test]
fn scenario_capacity_one_lifetime_two() {
    // time in milliseconds
    let mut s = ParticleSystemBuilder::new()
        .count(1)
        .lifetime(2000)
        .acceleration(Vec2::new(0, -98))
        .build();
    s.emit();
    s.emit();
    // admission tests `len <= capacity`, so exactly one particle beyond the capacity fits
    assert_eq!(s.len(), 2);
    s.emit();
    assert_eq!(s.len(), 2);
    assert!(s.can_update(1000));
    s.update(1000);
    assert_eq!(s.len(), 2);
    s.update(1500);
    assert_eq!(s.len(), 0);
}

#[test]
fn age_and_velocity_accumulate_over_ticks() {
    let mut s = ParticleSystemBuilder::new()
        .count(4)
        .acceleration(Vec2::new(2, -3))
        .start_velocity(StartParam::Fixed(Vec2::new(1, 1)))
        .build();
    s.emit();
    let dts: [u64; 4] = [1, 5, 2, 10];
    for dt in dts.iter() {
        s.update(*dt);
    }
    let p = s.particle(0);
    assert_eq!(p.age, 18);
    assert_eq!(p.vel, Vec2::new(1 + 2 * 18, 1 - 3 * 18));
}

#[test]
fn one_step_moves_by_the_new_velocity() {
    let mut s = ParticleSystemBuilder::new()
        .acceleration(Vec2::new(1, 0))
        .start_position(StartParam::Fixed(Vec2::new(5, 5)))
        .build();
    s.emit_at(Vec2::new(5, 5), Vec2::new(2, 0));
    s.update(3);
    let p = s.particle(0);
    assert_eq!(p.vel, Vec2::new(5, 0));
    assert_eq!(p.pos, Vec2::new(20, 5));
    assert_eq!(p.age, 3);
}

#[test]
fn particle_reaching_the_limit_is_evicted() {
    let mut s = ParticleSystemBuilder::new().count(5).lifetime(10).build();
    s.emit();
    s.update(4);
    s.emit();
    s.update(6);
    assert_eq!(s.len(), 1);
    assert_eq!(s.particle(0).age, 6);
}

#[test]
fn pool_never_exceeds_capacity_plus_one() {
    let mut s = ParticleSystemBuilder::new().count(3).lifetime(5).build();
    for round in 0..20u64 {
        s.emit();
        assert!(s.len() <= 4);
        s.update(round % 3);
        assert!(s.len() <= 4);
    }
}

#[test]
fn default_system_emits_from_origin() {
    let mut s = ParticleSystem::new();
    s.emit();
    assert_eq!(s.len(), 1);
    let p = s.particle(0);
    assert_eq!(p.pos, Vec2::new(0, 0));
    assert_eq!(p.vel, Vec2::new(10, 10));
    assert_eq!(p.age, 0);
    s.emit();
    assert_eq!(s.len(), 1);
}

#[test]
fn size_follows_the_curve_over_normalized_age() {
    let mut s = ParticleSystemBuilder::new()
        .count(2)
        .lifetime(1000)
        .size(size_curve())
        .build();
    s.emit();
    assert_eq!(s.calc_particle_size(0), 10);
    s.update(500);
    assert_eq!(s.calc_particle_size(0), 15);
    let records = s.snapshot();
    assert_eq!(records, vec![RenderRecord { pos: Vec2::new(5000, 5000), size: 15 }]);
}

#[test]
fn size_falls_back_without_lifetime_or_curve() {
    let mut unbounded = ParticleSystemBuilder::new().size(size_curve()).build();
    unbounded.emit();
    assert_eq!(unbounded.calc_particle_size(0), DEFAULT_SIZE);
    let mut no_curve = ParticleSystemBuilder::new().lifetime(100).build();
    no_curve.emit();
    assert_eq!(no_curve.calc_particle_size(0), DEFAULT_SIZE);
}

#[test]
fn update_that_would_overflow_is_reported() {
    let mut s = ParticleSystem::new();
    s.emit_at(Vec2::new(i64::MAX - 5, 0), Vec2::new(1, 0));
    assert!(s.can_update(5));
    assert!(!s.can_update(6));
}
