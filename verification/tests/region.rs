use race_sim::{region_for_position, tooltips, tube_radius, RegionId, Vec3Milli};

fn at_x(x: i64) -> Vec3Milli {
    Vec3Milli { x, y: 0, z: 0 }
}

#[test]
fn region_progression() {
    let checkpoints = [
        (at_x(10_000), RegionId::Vagina),
        (at_x(400_000 + 1_000), RegionId::Cervix),
        (at_x(1_100_000 + 1_000), RegionId::Uterus),
        (at_x(1_700_000 + 1_000), RegionId::Utj),
        (at_x(2_600_000 + 1_000), RegionId::Tube),
        (at_x(3_600_000 + 10_000), RegionId::Ampulla),
    ];
    for (pos, expected) in checkpoints {
        assert_eq!(region_for_position(pos), expected);
    }
}

#[test]
fn region_markers_are_lower_bound_inclusive() {
    assert_eq!(region_for_position(at_x(2_600_000)), RegionId::Tube);
    assert_eq!(region_for_position(at_x(2_599_999)), RegionId::Utj);
    assert_eq!(region_for_position(at_x(3_600_000)), RegionId::Ampulla);
    assert_eq!(region_for_position(at_x(3_601_000)), RegionId::Ampulla);
}

#[test]
fn negative_coordinates_resolve_to_the_first_region() {
    assert_eq!(region_for_position(at_x(-100_000)), RegionId::Vagina);
    assert_eq!(region_for_position(at_x(0)), RegionId::Vagina);
}

#[test]
fn region_resolution_is_monotonic_on_samples() {
    let idx = |r: RegionId| -> usize {
        match r {
            RegionId::Vagina => 0,
            RegionId::Cervix => 1,
            RegionId::Uterus => 2,
            RegionId::Utj => 3,
            RegionId::Tube => 4,
            RegionId::Ampulla => 5,
        }
    };
    let samples: Vec<i64> = (-10..400).map(|k| k * 10_000).collect();
    let mut prev = 0usize;
    for x in samples {
        let cur = idx(region_for_position(at_x(x)));
        assert!(prev <= cur);
        prev = cur;
    }
}

#[test]
fn tube_radii_match_the_region_order() {
    assert_eq!(tube_radius(RegionId::Vagina), 160_000);
    assert_eq!(tube_radius(RegionId::Cervix), 120_000);
    assert_eq!(tube_radius(RegionId::Uterus), 150_000);
    assert_eq!(tube_radius(RegionId::Utj), 90_000);
    assert_eq!(tube_radius(RegionId::Tube), 110_000);
    assert_eq!(tube_radius(RegionId::Ampulla), 140_000);
}

#[test]
fn tooltips_cover_all_regions_in_order() {
    let tips = tooltips();
    assert_eq!(tips.len(), 6);
    assert_eq!(tips[0].title, "Vagina");
    assert_eq!(tips[1].title, "Cervix");
    assert_eq!(tips[2].title, "Uterus");
    assert_eq!(tips[3].title, "UTJ");
    assert_eq!(tips[4].title, "Tube");
    assert_eq!(tips[5].title, "Ampulla");
    assert_eq!(tips[5].id, RegionId::Ampulla);
    assert!(!tips[0].note.is_empty());
}
