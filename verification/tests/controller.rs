use road_guidance::control::apply_control;
use road_guidance::controller::{
    bring_entities_closer_to_road, guide_entity, ControllerConfig, Correction, GuidedEntity,
    Kinematics,
};
use road_guidance::nearest::nearest_segment;
use road_guidance::frame::Orientation;
use road_guidance::network::{RoadNetwork, Segment};
use road_guidance::vector::Point3;

fn p(x: i64, y: i64, z: i64) -> Point3 {
    Point3::new(x, y, z)
}

fn road(segments: Vec<Segment>) -> RoadNetwork {
    RoadNetwork { last_position: None, road_segments: segments, macros: Vec::new() }
}

fn flat(a: Point3, b: Point3) -> Segment {
    Segment { a, b, up: p(0, 1_000, 0) }
}

fn straight_road() -> RoadNetwork {
    road(vec![flat(p(0, 0, 0), p(10_000, 0, 0))])
}

/// Looking along the x axis with the y axis overhead.
fn along_x() -> Orientation {
    Orientation { x_axis: p(0, 0, 1_000), y_axis: p(0, 1_000, 0), z_axis: p(-1_000, 0, 0) }
}

fn at_rest(position: Point3, orientation: Orientation) -> Kinematics {
    Kinematics {
        position,
        orientation,
        linear_velocity: p(0, 0, 0),
        angular_velocity: p(0, 0, 0),
    }
}

fn dot(a: Point3, b: Point3) -> i128 {
    a.x as i128 * b.x as i128 + a.y as i128 * b.y as i128 + a.z as i128 * b.z as i128
}

#[test]
fn standard_tuning() {
    let towing = ControllerConfig::towing();
    assert_eq!(
        towing,
        ControllerConfig {
            influence_radius: 30_000,
            float_height: 5_500,
            rotation_gain: 40_000,
            rotation_damping: -3_000,
            position_gain: 4_000,
            position_damping: -2_000,
            sub_target_fraction: 800,
        }
    );
    assert_eq!(ControllerConfig::solo(), ControllerConfig { influence_radius: 10_000, ..towing });
    assert!(towing.is_well_formed());
    assert!(ControllerConfig::solo().is_well_formed());
}

#[test]
fn tunings_out_of_range_are_told() {
    let good = ControllerConfig::towing();
    assert!(!ControllerConfig { influence_radius: -1, ..good }.is_well_formed());
    assert!(!ControllerConfig { influence_radius: 100_000_001, ..good }.is_well_formed());
    assert!(!ControllerConfig { float_height: -100_000_001, ..good }.is_well_formed());
    assert!(!ControllerConfig { rotation_gain: 1_000_001, ..good }.is_well_formed());
    assert!(!ControllerConfig { rotation_damping: -1_000_001, ..good }.is_well_formed());
    assert!(!ControllerConfig { position_gain: 1_000_001, ..good }.is_well_formed());
    assert!(!ControllerConfig { position_damping: -1_000_001, ..good }.is_well_formed());
    assert!(!ControllerConfig { sub_target_fraction: 1_000_001, ..good }.is_well_formed());
    assert!(ControllerConfig { influence_radius: 0, float_height: -100_000_000, ..good }
        .is_well_formed());
}

#[test]
fn control_is_gain_times_error_plus_gain_times_rate() {
    assert_eq!(
        apply_control(p(1_000, -2_000, 3_000), p(10, 20, -30), 40_000, -3_000),
        p(39_970, -80_060, 120_090)
    );
}

#[test]
fn control_rounds_toward_zero() {
    assert_eq!(apply_control(p(1, 2, 3), p(0, 0, 0), 1_500, 0), p(1, 3, 4));
    assert_eq!(apply_control(p(-1, -2, -3), p(0, 0, 0), 1_500, 0), p(-1, -3, -4));
}

#[test]
fn nearest_of_an_empty_road_is_none() {
    assert!(nearest_segment(&RoadNetwork::new(), p(0, 0, 0), 5_500).is_none());
}

#[test]
fn nearest_point_floats_above_the_centre_line() {
    let found = nearest_segment(&straight_road(), p(5_000, 0, 3_000), 5_500).unwrap();
    assert_eq!(found.index, 0);
    assert_eq!(found.point, p(5_000, 5_500, 0));
    assert_eq!(found.distance_sq, 5_500 * 5_500 + 3_000 * 3_000);
}

#[test]
fn nearest_skips_segments_that_the_perpendicular_misses() {
    let network = road(vec![
        flat(p(0, 0, 0), p(10_000, 0, 0)),
        flat(p(10_000, 0, 0), p(20_000, 0, 0)),
        flat(p(20_000, 0, 50_000), p(30_000, 0, 50_000)),
    ]);
    let found = nearest_segment(&network, p(15_000, 5_500, 1_000), 5_500).unwrap();
    assert_eq!(found.index, 1);
    assert_eq!(found.point, p(15_000, 5_500, 0));
    let far = nearest_segment(&network, p(25_000, 5_500, 0), 5_500).unwrap();
    assert_eq!(far.index, 2);
    assert_eq!(far.distance_sq, 2_500_000_000);
    assert!(nearest_segment(&network, p(-1, 5_500, 0), 5_500).is_none());
    assert!(nearest_segment(&network, p(30_001, 5_500, 0), 5_500).is_none());
}

#[test]
fn nearest_takes_the_smallest_distance() {
    let network = road(vec![
        flat(p(0, 0, 2_000), p(10_000, 0, 2_000)),
        flat(p(0, 0, -1_000), p(10_000, 0, -1_000)),
        flat(p(0, 0, 1_500), p(10_000, 0, 1_500)),
    ]);
    let found = nearest_segment(&network, p(5_000, 5_500, 0), 5_500).unwrap();
    assert_eq!(found.index, 1);
    assert_eq!(found.point, p(5_000, 5_500, -1_000));
    assert_eq!(found.distance_sq, 1_000_000);
}

#[test]
fn of_two_segments_at_the_same_distance_the_first_wins() {
    let left = flat(p(0, 0, 1_000), p(10_000, 0, 1_000));
    let right = flat(p(0, 0, -1_000), p(10_000, 0, -1_000));
    let found = nearest_segment(&road(vec![left, right, right]), p(5_000, 5_500, 0), 5_500).unwrap();
    assert_eq!(found.index, 0);
    assert_eq!(found.point, p(5_000, 5_500, 1_000));
    let found = nearest_segment(&road(vec![right, left]), p(5_000, 5_500, 0), 5_500).unwrap();
    assert_eq!(found.index, 0);
    assert_eq!(found.point, p(5_000, 5_500, -1_000));
    let farther = flat(p(0, 0, 2_000), p(10_000, 0, 2_000));
    let found =
        nearest_segment(&road(vec![farther, right, left]), p(5_000, 5_500, 0), 5_500).unwrap();
    assert_eq!(found.index, 1);
}

#[test]
fn guidance_of_a_body_that_is_off_the_road_and_askew() {
    let body = Kinematics {
        position: p(5_000, 5_800, 200),
        orientation: Orientation::identity(),
        linear_velocity: p(100, -50, 20),
        angular_velocity: p(10, 20, -30),
    };
    let config = ControllerConfig::towing();
    assert_eq!(
        guide_entity(&straight_road(), &body, 1_000, &config),
        Some(Correction { force: p(0, -1_100, -840), torque: p(-60, -32_120, 180) })
    );
}

#[test]
fn weight_scales_both_gains() {
    let body = Kinematics {
        position: p(5_000, 5_800, 200),
        orientation: Orientation::identity(),
        linear_velocity: p(100, -50, 20),
        angular_velocity: p(10, 20, -30),
    };
    let config = ControllerConfig::towing();
    assert_eq!(
        guide_entity(&straight_road(), &body, 1_500, &config),
        Some(Correction { force: p(0, -1_650, -1_260), torque: p(-90, -48_180, 270) })
    );
    assert_eq!(
        guide_entity(&straight_road(), &body, 0, &config),
        Some(Correction { force: p(0, 0, 0), torque: p(0, 0, 0) })
    );
}

#[test]
fn guidance_on_a_banked_skew_segment() {
    let network =
        road(vec![Segment { a: p(1_000, 2_000, 3_000), b: p(8_000, -3_000, 5_000), up: p(100, 900, -200) }]);
    let body = Kinematics {
        position: p(4_000, 6_000, 2_000),
        orientation: Orientation::identity(),
        linear_velocity: p(1_234, -4_321, 777),
        angular_velocity: p(-50, 60, 70),
    };
    assert_eq!(
        guide_entity(&network, &body, 1_500, &ControllerConfig::towing()),
        Some(Correction { force: p(1_129, 5_658, 10_189), torque: p(-36_990, -38_520, -5_730) })
    );
}

#[test]
fn the_force_has_no_part_along_the_road() {
    let segment = Segment { a: p(1_000, 2_000, 3_000), b: p(8_000, -3_000, 5_000), up: p(100, 900, -200) };
    let direction = segment.b.minus(segment.a);
    let network = road(vec![segment]);
    for (position, velocity) in [
        (p(4_000, 6_000, 2_000), p(1_234, -4_321, 777)),
        (p(3_000, 9_000, 9_000), p(-90_000, 0, 31)),
        (p(5_000, 1_000, -4_000), p(0, 0, 0)),
        (p(2_500, 7_000, 3_500), p(7, 7, 7)),
    ] {
        let body = Kinematics {
            position,
            orientation: Orientation::identity(),
            linear_velocity: velocity,
            angular_velocity: p(0, 0, 0),
        };
        let correction = guide_entity(&network, &body, 1_000, &ControllerConfig::towing()).unwrap();
        let along = dot(correction.force, direction);
        assert!(along * along < 3 * dot(direction, direction));
    }
}

#[test]
fn a_body_on_the_road_and_aligned_is_left_alone() {
    let body = at_rest(p(5_000, 5_500, 0), along_x());
    assert_eq!(
        guide_entity(&straight_road(), &body, 1_000, &ControllerConfig::towing()),
        Some(Correction { force: p(0, 0, 0), torque: p(0, 0, 0) })
    );
}

#[test]
fn an_aligned_body_beside_the_road_is_pulled_back_without_torque() {
    let body = at_rest(p(5_000, 7_500, -1_000), along_x());
    assert_eq!(
        guide_entity(&straight_road(), &body, 1_000, &ControllerConfig::towing()),
        Some(Correction { force: p(0, -8_000, 4_000), torque: p(0, 0, 0) })
    );
}

#[test]
fn a_body_at_the_influence_radius_is_still_guided() {
    let body = at_rest(p(5_000, 5_500, 10_000), along_x());
    assert_eq!(
        guide_entity(&straight_road(), &body, 1_000, &ControllerConfig::solo()),
        Some(Correction { force: p(0, 0, -40_000), torque: p(0, 0, 0) })
    );
}

#[test]
fn a_body_beyond_the_influence_radius_is_left_alone() {
    let body = at_rest(p(5_000, 5_500, 10_001), along_x());
    assert_eq!(guide_entity(&straight_road(), &body, 1_000, &ControllerConfig::solo()), None);
    assert_eq!(
        guide_entity(&straight_road(), &body, 1_000, &ControllerConfig::towing()),
        Some(Correction { force: p(0, 0, -40_004), torque: p(0, 0, 0) })
    );
}

#[test]
fn a_body_past_the_end_of_the_road_is_left_alone() {
    let body = at_rest(p(-1, 5_500, 0), along_x());
    assert_eq!(guide_entity(&straight_road(), &body, 1_000, &ControllerConfig::towing()), None);
    assert_eq!(guide_entity(&RoadNetwork::new(), &body, 1_000, &ControllerConfig::towing()), None);
}

#[test]
fn bodies_are_guided_one_by_one() {
    let moving = Kinematics {
        position: p(5_000, 5_800, 200),
        orientation: Orientation::identity(),
        linear_velocity: p(100, -50, 20),
        angular_velocity: p(10, 20, -30),
    };
    let entities = vec![
        GuidedEntity { entity: 7, weight: 1_000, kinematics: Some(moving) },
        GuidedEntity { entity: 8, weight: 1_500, kinematics: None },
        GuidedEntity { entity: 9, weight: 1_500, kinematics: Some(moving) },
        GuidedEntity {
            entity: 10,
            weight: 1_000,
            kinematics: Some(at_rest(p(-1, 5_500, 0), along_x())),
        },
    ];
    let corrections =
        bring_entities_closer_to_road(&straight_road(), &entities, &ControllerConfig::towing());
    assert_eq!(
        corrections,
        vec![
            Some(Correction { force: p(0, -1_100, -840), torque: p(-60, -32_120, 180) }),
            None,
            Some(Correction { force: p(0, -1_650, -1_260), torque: p(-90, -48_180, 270) }),
            None,
        ]
    );
    assert!(bring_entities_closer_to_road(&straight_road(), &Vec::new(), &ControllerConfig::solo())
        .is_empty());
}

#[test]
fn kinematics_are_checked() {
    let good = at_rest(p(0, 0, 0), along_x());
    assert!(good.is_well_formed());
    assert!(!Kinematics { position: p(0, 100_000_001, 0), ..good }.is_well_formed());
    assert!(!Kinematics { linear_velocity: p(-100_000_001, 0, 0), ..good }.is_well_formed());
    assert!(!Kinematics { angular_velocity: p(0, 0, 100_000_001), ..good }.is_well_formed());
    let stretched = Orientation { x_axis: p(0, 0, 1_001), ..along_x() };
    assert!(!Kinematics { orientation: stretched, ..good }.is_well_formed());
}
