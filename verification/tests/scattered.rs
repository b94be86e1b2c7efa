use road_guidance::controller::{guide_entity, ControllerConfig, Correction, Kinematics};
use road_guidance::frame::Orientation;
use road_guidance::geometry::{closest_point_on_segment_capped, face_normal};
use road_guidance::mesh::build_road_network;
use road_guidance::nearest::nearest_segment;
use road_guidance::network::{RoadNetwork, Segment};
use road_guidance::vector::Point3;

fn p(x: i64, y: i64, z: i64) -> Point3 {
    Point3::new(x, y, z)
}

fn road(segments: Vec<Segment>) -> RoadNetwork {
    RoadNetwork { last_position: None, road_segments: segments, macros: Vec::new() }
}

fn dot(a: Point3, b: Point3) -> i128 {
    a.x as i128 * b.x as i128 + a.y as i128 * b.y as i128 + a.z as i128 * b.z as i128
}

/// A small generator of numbers that repeats on every run.
struct Numbers(u64);

impl Numbers {
    fn next(&mut self) -> u64 {
        self.0 = self.0.wrapping_mul(6364136223846793005).wrapping_add(1442695040888963407);
        self.0 >> 11
    }

    fn within(&mut self, limit: i64) -> i64 {
        (self.next() % (2 * limit as u64 + 1)) as i64 - limit
    }

    fn point(&mut self, limit: i64) -> Point3 {
        p(self.within(limit), self.within(limit), self.within(limit))
    }
}

#[test]
fn projections_of_scattered_points() {
    let cases = [
        (p(44358, -13655, 21643), p(-14572, 17054, 21064), p(-54350, 44353, 51659), None),
        (p(-49126, -35171, 8060), p(9923, -10394, -48105), p(37457, -45372, 20692), Some(p(-15347, -20998, -24069))),
        (p(11646, 5811, 39084), p(-48329, -10549, -49160), p(48157, 824, -21208), Some(p(-4888, 1301, 14756))),
        (p(-18626, 18839, 8084), p(5135, 42459, -23676), p(32616, -49029, 18039), None),
        (p(12142, -23467, -33872), p(-20839, 44502, 34148), p(25237, 7863, -13298), Some(p(2259, -3098, -13488))),
        (p(33389, -7552, 49683), p(16441, 17500, 28911), p(-1311, 20002, -50509), None),
        (p(-48271, -13271, 31400), p(-27684, 20899, 6786), p(38778, 43051, -9418), None),
        (p(18821, -43027, 1176), p(23098, 16908, -23092), p(9972, 16178, -58460), None),
        (p(29063, 8990, 5484), p(-30073, -35453, -21980), p(23653, -18050, -15089), Some(p(9245, -5904, -3719))),
        (p(-20188, -10707, -19673), p(26826, 9281, -28450), p(571, -35585, 52475), None),
        (p(-2776, 19959, 10680), p(-43209, 5886, 20525), p(-30219, 21824, 17117), Some(p(-26802, 11597, 16530))),
        (p(15972, -12271, 26952), p(1991, -49866, -5150), p(49602, 55476, 14033), None),
        (p(18282, 10519, 6521), p(-26396, -9624, 9941), p(-50755, -6473, 20579), None),
        (p(-3111, 39973, -23543), p(-16616, -36066, -40782), p(35447, 6828, 41173), Some(p(-5017, 29239, -25976))),
        (p(-31641, 44319, 1918), p(-20847, -44785, 10488), p(11548, -43395, -58059), Some(p(-21328, -40821, 10106))),
        (p(45012, -1907, 6997), p(-47319, 13968, 45316), p(9786, 22895, 14179), Some(p(9673, 4169, 21663))),
    ];
    for (a, b, point, expected) in cases {
        assert_eq!(closest_point_on_segment_capped(a, b, point), expected);
    }
}

#[test]
fn normals_of_scattered_triangles() {
    let cases = [
        (p(28850, -21080, 2888), p(9064, 4915, 21528), p(-22633, -11114, 25231), p(300, -393, 868)),
        (p(4159, -23392, -68), p(-29417, -10058, -23391), p(4641, 24523, -12824), p(492, -228, -839)),
        (p(-27348, -21795, -18776), p(23376, -13930, 7999), p(-18574, 18946, 27502), p(-242, -704, 666)),
        (p(-1722, 17802, 28191), p(29823, -6098, 27147), p(2936, -25916, 11196), p(253, 373, -892)),
        (p(1853, -14655, -11902), p(-27074, -7648, 15303), p(-9982, 17210, -16772), p(-685, -351, -637)),
        (p(2531, 3531, -10085), p(-6200, 23448, -2737), p(18618, 27668, 14006), p(435, 473, -765)),
        (p(-4316, 27885, 16337), p(24647, 728, -29678), p(21849, 19446, -3820), p(200, -783, 588)),
        (p(21784, -13238, 8388), p(-12307, 25186, -23000), p(29534, -10912, 29521), p(824, 444, -351)),
        (p(23297, 6578, 12425), p(-7583, 17843, 24693), p(21121, -29272, 3654), p(279, -244, 928)),
        (p(26738, -19867, 6297), p(-22772, 15256, -11268), p(1973, 6590, 10149), p(617, 643, -452)),
    ];
    for (a, b, c, expected) in cases {
        assert_eq!(face_normal(a, b, c), expected);
    }
}

fn winding_road() -> RoadNetwork {
    road(vec![
        Segment { a: p(0, 0, 0), b: p(8000, 500, 1000), up: p(0, 1000, 0) },
        Segment { a: p(8000, 500, 1000), b: p(15000, 1500, 4000), up: p(100, 990, -50) },
        Segment { a: p(15000, 1500, 4000), b: p(19000, 1500, 11000), up: p(300, 950, 0) },
        Segment { a: p(19000, 1500, 11000), b: p(18000, 0, 19000), up: p(200, 960, 200) },
        Segment { a: p(18000, 0, 19000), b: p(12000, -2000, 25000), up: p(0, 1000, 0) },
    ])
}

#[test]
fn guidance_along_a_winding_road() {
    let network = winding_road();
    let cases = [
        (
            Kinematics { position: p(-2653, -778, 25804), orientation: Orientation { x_axis: p(600, 0, -800), y_axis: p(0, 1000, 0), z_axis: p(800, 0, 600) }, linear_velocity: p(-18085, -7693, 10248), angular_velocity: p(563, 128, -4380) },
            1500,
            ControllerConfig::solo(),
            None,
        ),
        (
            Kinematics { position: p(-1246, 10020, 23101), orientation: Orientation { x_axis: p(0, 0, 1000), y_axis: p(0, 1000, 0), z_axis: p(-1000, 0, 0) }, linear_velocity: p(17394, -1228, -12786), angular_velocity: p(1422, -3811, 4509) },
            1000,
            ControllerConfig::towing(),
            Some(Correction { force: p(8581, -13229, -62038), torque: p(-8532, 18946, -25134) }),
        ),
        (
            Kinematics { position: p(20531, 1284, 18602), orientation: Orientation { x_axis: p(1000, 0, 0), y_axis: p(0, 1000, 0), z_axis: p(0, 0, 1000) }, linear_velocity: p(-1914, 11503, 6181), angular_velocity: p(3751, -4082, -846) },
            1500,
            ControllerConfig::solo(),
            None,
        ),
        (
            Kinematics { position: p(2845, 5949, 973), orientation: Orientation { x_axis: p(707, 0, 707), y_axis: p(-500, 707, 500), z_axis: p(-500, -707, 500) }, linear_velocity: p(9226, -8110, 1618), angular_velocity: p(4137, 3474, -974) },
            1000,
            ControllerConfig::solo(),
            Some(Correction { force: p(-582, 16249, -3473), torque: p(-37102, -38644, -31556) }),
        ),
        (
            Kinematics { position: p(-2713, 7449, 21237), orientation: Orientation { x_axis: p(0, 0, 1000), y_axis: p(0, 1000, 0), z_axis: p(-1000, 0, 0) }, linear_velocity: p(14710, 17459, 11461), angular_velocity: p(3295, -1635, 3140) },
            1500,
            ControllerConfig::towing(),
            Some(Correction { force: p(23233, -60884, -155424), torque: p(-29654, 8834, -25380) }),
        ),
        (
            Kinematics { position: p(-2534, 11405, 6324), orientation: Orientation { x_axis: p(0, 0, 1000), y_axis: p(0, 1000, 0), z_axis: p(-1000, 0, 0) }, linear_velocity: p(16787, 2776, 15515), angular_velocity: p(3602, -1898, 3257) },
            1500,
            ControllerConfig::solo(),
            None,
        ),
        (
            Kinematics { position: p(12782, -1996, 154), orientation: Orientation { x_axis: p(0, 0, 1000), y_axis: p(0, 1000, 0), z_axis: p(-1000, 0, 0) }, linear_velocity: p(-17598, 8372, -71), angular_velocity: p(-1034, -527, 2695) },
            500,
            ControllerConfig::solo(),
            Some(Correction { force: p(-169, 6447, -1753), torque: p(2302, -4659, -7604) }),
        ),
        (
            Kinematics { position: p(-1840, 975, 7909), orientation: Orientation { x_axis: p(600, 0, -800), y_axis: p(0, 1000, 0), z_axis: p(800, 0, 600) }, linear_velocity: p(13561, -3296, -3742), angular_velocity: p(-160, -1237, 3454) },
            1000,
            ControllerConfig::solo(),
            None,
        ),
        (
            Kinematics { position: p(11813, 4394, 10357), orientation: Orientation { x_axis: p(0, 0, 1000), y_axis: p(0, 1000, 0), z_axis: p(-1000, 0, 0) }, linear_velocity: p(3339, 11317, -14316), angular_velocity: p(3209, -2292, 4326) },
            1000,
            ControllerConfig::solo(),
            Some(Correction { force: p(3194, -12210, -1824), torque: p(-19254, -14008, -35556) }),
        ),
        (
            Kinematics { position: p(6509, 9430, 18842), orientation: Orientation { x_axis: p(707, 0, 707), y_axis: p(-500, 707, 500), z_axis: p(-500, -707, 500) }, linear_velocity: p(18927, 8215, -2385), angular_velocity: p(-2227, -2386, 4028) },
            1000,
            ControllerConfig::solo(),
            Some(Correction { force: p(11903, -30885, 1609), torque: p(9242, 14316, -28288) }),
        ),
        (
            Kinematics { position: p(-2357, 5775, 3384), orientation: Orientation { x_axis: p(707, 0, 707), y_axis: p(-500, 707, 500), z_axis: p(-500, -707, 500) }, linear_velocity: p(13710, 16698, 5553), angular_velocity: p(-1998, -3641, 3660) },
            1000,
            ControllerConfig::towing(),
            Some(Correction { force: p(58199, -33099, 47167), torque: p(7868, 21846, -26080) }),
        ),
        (
            Kinematics { position: p(1810, 2280, 17232), orientation: Orientation { x_axis: p(600, 0, -800), y_axis: p(0, 1000, 0), z_axis: p(800, 0, 600) }, linear_velocity: p(-14851, 16297, -14504), angular_velocity: p(-4628, 4492, -3466) },
            500,
            ControllerConfig::towing(),
            Some(Correction { force: p(3267, -10356, -20956), torque: p(14464, -21396, 9618) }),
        ),
        (
            Kinematics { position: p(21505, -1432, 5081), orientation: Orientation { x_axis: p(0, 0, 1000), y_axis: p(0, 1000, 0), z_axis: p(-1000, 0, 0) }, linear_velocity: p(19331, 17263, 1475), angular_velocity: p(1979, 1176, -3452) },
            1500,
            ControllerConfig::solo(),
            Some(Correction { force: p(-68445, -1197, 39110), torque: p(-17810, -52224, 16668) }),
        ),
        (
            Kinematics { position: p(14764, 5369, 9629), orientation: Orientation { x_axis: p(0, 0, 1000), y_axis: p(0, 1000, 0), z_axis: p(-1000, 0, 0) }, linear_velocity: p(10925, 10437, 16039), angular_velocity: p(-217, 4791, -4200) },
            2000,
            ControllerConfig::solo(),
            Some(Correction { force: p(15513, -28700, -8865), torque: p(2604, -113012, 31200) }),
        ),
    ];
    for (body, weight, config, expected) in cases {
        assert_eq!(guide_entity(&network, &body, weight, &config), expected);
    }
}

#[test]
fn nearest_points_along_a_winding_road() {
    let network = winding_road();
    let cases = [
        (p(-2653, -778, 25804), Some((0, p(176, 5511, 22), 712266286))),
        (p(-1246, 10020, 23101), Some((0, p(1887, 5617, 235), 552056054))),
        (p(20531, 1284, 18602), None),
        (p(2845, 5949, 973), Some((0, p(2937, 5683, 367), 446456))),
        (p(-2713, 7449, 21237), Some((0, p(62, 5503, 7), 462200441))),
        (p(-2534, 11405, 6324), Some((4, p(15211, 4571, 21789), 600754806))),
        (p(12782, -1996, 154), Some((1, p(10721, 6388, 2166), 78587321))),
        (p(-1840, 975, 7909), Some((3, p(18924, 6886, 11612), 479795826))),
        (p(11813, 4394, 10357), Some((2, p(16953, 7000, 7419), 41842680))),
        (p(6509, 9430, 18842), Some((4, p(13253, 3918, 23747), 99922705))),
        (p(-2357, 5775, 3384), Some((4, p(15798, 4766, 21202), 648103230))),
        (p(1810, 2280, 17232), Some((0, p(3690, 5730, 461), 296703341))),
        (p(21505, -1432, 5081), Some((2, p(17066, 7000, 7617), 97234641))),
        (p(14764, 5369, 9629), Some((2, p(17366, 7000, 8141), 11644709))),
    ];
    for (position, expected) in cases {
        let found = nearest_segment(&network, position, 5_500)
            .map(|nearest| (nearest.index, nearest.point, nearest.distance_sq));
        assert_eq!(found, expected);
    }
}

#[test]
fn points_of_scattered_segments_project_to_themselves() {
    let mut numbers = Numbers(7);
    for _ in 0..500 {
        let a = numbers.point(1_000_000);
        let step = numbers.point(3_000);
        let pieces = 1 + (numbers.next() % 40) as i64;
        let b = p(a.x + step.x * pieces, a.y + step.y * pieces, a.z + step.z * pieces);
        if a == b {
            continue;
        }
        for k in 0..=pieces {
            let on = p(a.x + step.x * k, a.y + step.y * k, a.z + step.z * k);
            assert_eq!(closest_point_on_segment_capped(a, b, on), Some(on));
        }
        for k in [-3, -1, pieces + 1, pieces + 5] {
            let off = p(a.x + step.x * k, a.y + step.y * k, a.z + step.z * k);
            assert_eq!(closest_point_on_segment_capped(a, b, off), None);
        }
    }
}

#[test]
fn feet_of_perpendiculars_are_perpendicular() {
    let mut numbers = Numbers(11);
    let mut feet = 0;
    for _ in 0..2_000 {
        let a = numbers.point(100_000);
        let b = numbers.point(100_000);
        let point = numbers.point(150_000);
        if a == b {
            continue;
        }
        if let Some(foot) = closest_point_on_segment_capped(a, b, point) {
            let direction = b.minus(a);
            let along = dot(point.minus(foot), direction);
            assert!(along * along < 3 * dot(direction, direction));
            feet += 1;
        }
    }
    assert!(feet > 100);
}

#[test]
fn applied_forces_are_perpendicular_to_the_road() {
    let network = winding_road();
    let mut numbers = Numbers(13);
    let mut guided = 0;
    for _ in 0..2_000 {
        let body = Kinematics {
            position: p(
                10_000 + numbers.within(15_000),
                5_000 + numbers.within(8_000),
                12_000 + numbers.within(16_000),
            ),
            orientation: Orientation::identity(),
            linear_velocity: numbers.point(50_000),
            angular_velocity: numbers.point(5_000),
        };
        let config = ControllerConfig::towing();
        let nearest = nearest_segment(&network, body.position, config.float_height);
        let correction = guide_entity(&network, &body, 1_500, &config);
        match (nearest, correction) {
            (Some(nearest), Some(correction)) => {
                let segment = network.road_segments[nearest.index];
                let direction = segment.b.minus(segment.a);
                let along = dot(correction.force, direction);
                assert!(along * along < 3 * dot(direction, direction));
                assert!(nearest.distance_sq <= 900_000_000);
                guided += 1;
            }
            (Some(nearest), None) => assert!(nearest.distance_sq > 900_000_000),
            (None, correction) => assert_eq!(correction, None),
        }
    }
    assert!(guided > 100);
}

#[test]
fn normalized_vectors_are_one_unit_long() {
    let mut numbers = Numbers(19);
    for limit in [1, 2, 3, 10, 1_000, 70_000, 5_000_000_000, 4_000_000_000_000_000_000] {
        for _ in 0..500 {
            let v = numbers.point(limit);
            let n = v.normalized();
            if v == p(0, 0, 0) {
                assert_eq!(n, p(0, 0, 0));
                continue;
            }
            assert!(n.norm_sq() <= 1_000_000);
            assert!(n.norm_sq() >= 1_000_000 - 3_466);
            assert!(n.x * v.x.signum() >= 0 && n.y * v.y.signum() >= 0 && n.z * v.z.signum() >= 0);
            assert_eq!(v.negated().normalized(), n.negated());
        }
    }
}

#[test]
fn stretching_a_vector_keeps_its_direction() {
    let mut numbers = Numbers(23);
    for limit in [1, 2, 5, 1_000, 3_000_000] {
        for _ in 0..500 {
            let v = numbers.point(limit);
            let n = v.normalized();
            for k in [2, 3, 7, 1_000, 1_000_003] {
                let stretched = p(v.x * k, v.y * k, v.z * k).normalized();
                assert!(stretched.minus(n).in_bounds(1));
            }
        }
    }
}

#[test]
fn normals_of_scattered_triangles_are_one_unit_long() {
    let mut numbers = Numbers(29);
    for limit in [1, 2, 4, 100, 100_000] {
        for _ in 0..500 {
            let a = numbers.point(limit);
            let b = numbers.point(limit);
            let c = numbers.point(limit);
            let n = face_normal(a, b, c);
            if b.minus(a).cross(c.minus(a)) == p(0, 0, 0) {
                assert_eq!(n, p(0, 0, 0));
            } else {
                assert!(n.norm_sq() <= 1_000_000 && n.norm_sq() >= 996_534);
            }
            assert_eq!(face_normal(a, c, b), n.negated());
        }
    }
}

#[test]
fn the_length_of_up_does_not_matter_to_the_ribbon() {
    let mut numbers = Numbers(31);
    for _ in 0..200 {
        let mut segments = Vec::new();
        let mut position = numbers.point(20_000);
        for _ in 0..6 {
            let next = p(
                position.x + 1 + numbers.within(3_000).abs(),
                position.y + numbers.within(300),
                position.z + numbers.within(3_000),
            );
            segments.push(Segment { a: position, b: next, up: numbers.point(40) });
            position = next;
        }
        let mesh = build_road_network(&road(segments.clone()));
        for k in [2, 25, 1_000] {
            let stretched: Vec<Segment> = segments
                .iter()
                .map(|s| Segment { up: p(s.up.x * k, s.up.y * k, s.up.z * k), ..*s })
                .collect();
            let other = build_road_network(&road(stretched));
            assert_eq!(other.indices, mesh.indices);
            assert_eq!(other.material, mesh.material);
            for (moved, corner) in other.positions.iter().zip(mesh.positions.iter()) {
                assert!(moved.minus(*corner).in_bounds(2));
            }
        }
    }
}

#[test]
fn mesh_sizes_of_long_roads() {
    let mut numbers = Numbers(17);
    let mut network = RoadNetwork::new();
    let mut position = p(0, 0, 0);
    network.append_segment(position, p(0, 1_000, 0));
    for count in 1..=300usize {
        position = p(
            position.x + 1 + numbers.within(4_000).abs(),
            position.y + numbers.within(500),
            position.z + numbers.within(4_000),
        );
        network.append_segment(position, p(numbers.within(300), 1_000, numbers.within(300)));
        assert_eq!(network.road_segments.len(), count);
        if count % 50 == 0 {
            let mesh = build_road_network(&network);
            assert_eq!(mesh.positions.len(), 4 * count);
            assert_eq!(mesh.normals.len(), 4 * count);
            assert_eq!(mesh.indices.len(), 6 * count);
            for (i, index) in mesh.indices.iter().enumerate() {
                let corner = [0, 1, 2, 2, 1, 3][i % 6];
                assert_eq!(*index as usize, 4 * (i / 6) + corner);
            }
            for i in 0..count - 1 {
                assert_eq!(mesh.positions[4 * i + 2], mesh.positions[4 * i + 4]);
                assert_eq!(mesh.positions[4 * i + 3], mesh.positions[4 * i + 5]);
            }
        }
    }
}
