use race_sim::{
    clamp_to_radius, distance_squared, integrate_3d_position, integrate_input, overlaps,
    InputFrame, PlayerKinematics, Vec3Milli,
};

fn zero() -> Vec3Milli {
    Vec3Milli { x: 0, y: 0, z: 0 }
}

#[test]
fn integrates_upward_motion() {
    let kin = PlayerKinematics::spawn(zero());
    let input = InputFrame {
        up: true,
        ..Default::default()
    };
    let result = integrate_input(kin, &input);
    assert!(result.position.x > 0);
}

#[test]
fn clamps_to_radius() {
    let pos = Vec3Milli {
        x: 0,
        y: 500_000,
        z: 0,
    };
    let clamped = clamp_to_radius(pos, 100_000);
    assert_eq!(clamped.y, 100_000);
    assert_eq!(clamped.z, 0);
    assert_eq!(clamped.x, 0);
}

#[test]
fn single_flag_velocity_is_axis_aligned_at_base_speed() {
    let kin = PlayerKinematics::spawn(zero());
    let input = InputFrame {
        right: true,
        ..Default::default()
    };
    let result = integrate_input(kin, &input);
    assert_eq!(result.velocity.x, 0);
    assert_eq!(result.velocity.y, 0);
    assert_eq!(result.velocity.z, 250_000);
}

#[test]
fn single_tick_rightward_step_is_unclamped() {
    // One tick at the base speed covers 250 / 60 units: 4166 milliunits,
    // well inside the first region's 160-unit radius.
    let kin = PlayerKinematics::spawn(zero());
    let input = InputFrame {
        right: true,
        ..Default::default()
    };
    let result = integrate_input(kin, &input);
    assert_eq!(result.position.x, 0);
    assert_eq!(result.position.y, 0);
    assert_eq!(result.position.z, 4_166);
    let clamped = clamp_to_radius(result.position, 160_000);
    assert_eq!(clamped.z, result.position.z);
}

#[test]
fn diagonal_velocity_has_no_speed_bonus() {
    let kin = PlayerKinematics::spawn(zero());
    let input = InputFrame {
        up: true,
        right: true,
        ..Default::default()
    };
    let result = integrate_input(kin, &input);
    assert_eq!(result.velocity.x, 176_776);
    assert_eq!(result.velocity.z, 176_776);
    let mag_sq = result.velocity.x * result.velocity.x + result.velocity.z * result.velocity.z;
    assert!(mag_sq <= 250_000i64 * 250_000i64);
    assert!((250_000i64 - 2) * (250_000i64 - 2) <= mag_sq);
}

#[test]
fn opposite_flags_cancel_to_zero_velocity() {
    let kin = PlayerKinematics::spawn(zero());
    let input = InputFrame {
        up: true,
        down: true,
        ..Default::default()
    };
    let result = integrate_input(kin, &input);
    assert_eq!(result.velocity.x, 0);
    assert_eq!(result.velocity.z, 0);
    assert_eq!(result.position.x, 0);
}

#[test]
fn boost_drains_and_regen_caps_stamina() {
    let mut kin = PlayerKinematics::spawn(zero());
    let boost = InputFrame {
        up: true,
        boost: true,
        ..Default::default()
    };
    let coast = InputFrame {
        up: true,
        ..Default::default()
    };
    assert_eq!(kin.stamina, 100_000);
    kin = integrate_input(kin, &boost);
    assert_eq!(kin.stamina, 100_000 - 583);
    assert_eq!(kin.velocity.x, 420_000);
    // Boosting drains 583 milli-points per tick and floors at zero after
    // 172 ticks, never leaving the range on the way down.
    for _ in 0..171 {
        kin = integrate_input(kin, &boost);
        assert!(kin.stamina >= 0 && kin.stamina <= 100_000);
    }
    assert_eq!(kin.stamina, 0);
    // With stamina under the threshold the boost flag no longer selects
    // boost speed; the tick regenerates instead.
    kin = integrate_input(kin, &boost);
    assert_eq!(kin.velocity.x, 250_000);
    assert_eq!(kin.stamina, 250);
    // Regeneration caps at the maximum and never overshoots.
    for _ in 0..800 {
        kin = integrate_input(kin, &coast);
        assert!(kin.stamina >= 0 && kin.stamina <= 100_000);
    }
    assert_eq!(kin.stamina, 100_000);
}

#[test]
fn clamp_leaves_positions_inside_radius_untouched() {
    let pos = Vec3Milli {
        x: 12_345,
        y: 30_000,
        z: 40_000,
    };
    let clamped = clamp_to_radius(pos, 100_000);
    assert_eq!(clamped, pos);
}

#[test]
fn clamp_never_increases_off_axis_displacement() {
    let pos = Vec3Milli {
        x: 777,
        y: -300_000,
        z: 400_000,
    };
    let clamped = clamp_to_radius(pos, 100_000);
    assert_eq!(clamped.x, 777);
    let off = clamped.y as i128 * clamped.y as i128 + clamped.z as i128 * clamped.z as i128;
    let before = pos.y as i128 * pos.y as i128 + pos.z as i128 * pos.z as i128;
    assert!(off <= before);
    assert!(off <= 100_000i128 * 100_000i128);
    // ... and lands on the radius, up to the fixed-point quantization.
    assert!(off > 100_000i128 * 100_000i128 - 6 * 100_000 - 2);
    // The 3-4-5 triangle rescales to 60 and -80 units exactly.
    assert_eq!(clamped.y, -60_000);
    assert_eq!(clamped.z, 80_000);
}

#[test]
fn integrate_3d_position_steps_by_velocity_share() {
    let pos = Vec3Milli {
        x: 1_000,
        y: 2_000,
        z: 3_000,
    };
    let vel = Vec3Milli {
        x: 250_000,
        y: 0,
        z: -250_000,
    };
    let moved = integrate_3d_position(pos, vel);
    assert_eq!(moved.x, 1_000 + 4_166);
    assert_eq!(moved.y, 2_000);
    // Floor division: one tick at -250 units per second.
    assert_eq!(moved.z, 3_000 - 4_167);
}

#[test]
fn overlaps_compares_against_twice_the_collision_radius() {
    let a = zero();
    let close = Vec3Milli {
        x: 27_000,
        y: 0,
        z: 0,
    };
    let far = Vec3Milli {
        x: 29_000,
        y: 0,
        z: 0,
    };
    assert!(overlaps(a, close));
    assert!(!overlaps(a, far));
    assert_eq!(distance_squared(a, far), 29_000i128 * 29_000i128);
}
