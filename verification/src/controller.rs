//! The guidance controller: corrections that pull a body back to the road.
//!
//! For one body the controller finds the nearest point of the road's centre line,
//! lifted by the height at which bodies float above the road. It answers with a
//! force toward that point, without its part along the road, and with a torque that
//! turns the body's forward and up directions to those of the segment. Both are
//! proportional to the error and damped by the body's own velocity.

use vstd::prelude::*;
use crate::control::{
    alignment, alignment_error, apply_control, control, remove_projection, weighted, weighted_gain,
    GAIN_MAX,
};
use crate::fixed::{lemma_product_bound, COORD_MAX};
use crate::frame::Orientation;
use crate::nearest::{candidate_of, gap_sq, is_nearest, lemma_nearest_is_unique, nearest_segment};
use crate::network::{RoadNetwork, Segment};
use crate::projection::{lateral_part, lemma_lateral_part_is_perpendicular, nearly_perpendicular};
use crate::vector::{lemma_norm_sq_sign, Point3, V3};

verus! {

/// The tuning of the controller.
#[derive(Clone, Copy, PartialEq, Eq, Structural, Debug)]
pub struct ControllerConfig {
    /// The distance from the road beyond which a body is left alone.
    pub influence_radius: i64,
    /// The height above the recorded centre line at which bodies float.
    pub float_height: i64,
    /// Proportional gain of the torque.
    pub rotation_gain: i64,
    /// Rate gain of the torque, on the angular velocity; negative to damp.
    pub rotation_damping: i64,
    /// Proportional gain of the force.
    pub position_gain: i64,
    /// Rate gain of the force, on the linear velocity; negative to damp.
    pub position_damping: i64,
    /// The fraction of the rotation error that is corrected at once; below one, it
    /// keeps the body from overshooting.
    pub sub_target_fraction: i64,
}

impl ControllerConfig {
    /// The radius is not negative, and every number is within its limit.
    pub open spec fn wf(&self) -> bool {
        &&& 0 <= self.influence_radius <= COORD_MAX
        &&& -COORD_MAX <= self.float_height <= COORD_MAX
        &&& -GAIN_MAX <= self.rotation_gain <= GAIN_MAX
        &&& -GAIN_MAX <= self.rotation_damping <= GAIN_MAX
        &&& -GAIN_MAX <= self.position_gain <= GAIN_MAX
        &&& -GAIN_MAX <= self.position_damping <= GAIN_MAX
        &&& -GAIN_MAX <= self.sub_target_fraction <= GAIN_MAX
    }

    /// Whether the tuning is well formed.
    pub fn is_well_formed(&self) -> (ok: bool)
        ensures
            ok == self.wf(),
    {
        0 <= self.influence_radius && self.influence_radius <= COORD_MAX && -COORD_MAX
            <= self.float_height && self.float_height <= COORD_MAX && gain_in_range(
            self.rotation_gain,
        ) && gain_in_range(self.rotation_damping) && gain_in_range(self.position_gain)
            && gain_in_range(self.position_damping) && gain_in_range(self.sub_target_fraction)
    }

    /// The numbers are those of the standard tuning, but for the radius.
    pub open spec fn is_standard_tuning(&self) -> bool {
        &&& self.float_height == 5_500
        &&& self.rotation_gain == 40_000
        &&& self.rotation_damping == -3_000
        &&& self.position_gain == 4_000
        &&& self.position_damping == -2_000
        &&& self.sub_target_fraction == 800
    }

    /// The tuning for a vehicle that drives alone: it is guided within ten units of
    /// the road.
    pub fn solo() -> (config: ControllerConfig)
        ensures
            config.wf(),
            config.is_standard_tuning(),
            config.influence_radius == 10_000,
    {
        ControllerConfig {
            influence_radius: 10_000,
            float_height: 5_500,
            rotation_gain: 40_000,
            rotation_damping: -3_000,
            position_gain: 4_000,
            position_damping: -2_000,
            sub_target_fraction: 800,
        }
    }

    /// The tuning for a vehicle that tows a trailer: both are guided within thirty
    /// units of the road.
    pub fn towing() -> (config: ControllerConfig)
        ensures
            config.wf(),
            config.is_standard_tuning(),
            config.influence_radius == 30_000,
    {
        ControllerConfig {
            influence_radius: 30_000,
            float_height: 5_500,
            rotation_gain: 40_000,
            rotation_damping: -3_000,
            position_gain: 4_000,
            position_damping: -2_000,
            sub_target_fraction: 800,
        }
    }
}

/// Whether a gain is within [`GAIN_MAX`].
fn gain_in_range(gain: i64) -> (ok: bool)
    ensures
        ok == (-GAIN_MAX <= gain <= GAIN_MAX),
{
    -GAIN_MAX <= gain && gain <= GAIN_MAX
}

/// What the controller reads of a body: where it is, how it is turned and how it
/// moves.
#[derive(Clone, Copy, PartialEq, Eq, Structural, Debug)]
pub struct Kinematics {
    pub position: Point3,
    pub orientation: Orientation,
    pub linear_velocity: Point3,
    pub angular_velocity: Point3,
}

impl Kinematics {
    /// Position and velocities are within [`COORD_MAX`] and the orientation is well
    /// formed.
    pub open spec fn wf(&self) -> bool {
        &&& self.position@.within(COORD_MAX as int)
        &&& self.orientation.wf()
        &&& self.linear_velocity@.within(COORD_MAX as int)
        &&& self.angular_velocity@.within(COORD_MAX as int)
    }

    /// Whether what was read of the body is well formed.
    pub fn is_well_formed(&self) -> (ok: bool)
        ensures
            ok == self.wf(),
    {
        self.position.in_bounds(COORD_MAX) && self.orientation.is_well_formed()
            && self.linear_velocity.in_bounds(COORD_MAX) && self.angular_velocity.in_bounds(
            COORD_MAX,
        )
    }
}

/// A force and a torque as mathematical vectors: the model of a [`Correction`].
pub struct CorrectionModel {
    pub force: V3,
    pub torque: V3,
}

impl CorrectionModel {
    /// No force and no torque.
    pub open spec fn zero() -> CorrectionModel {
        CorrectionModel { force: V3::zero(), torque: V3::zero() }
    }
}

/// What the controller adds to the force and the torque that act on a body.
#[derive(Clone, Copy, PartialEq, Eq, Structural, Debug)]
pub struct Correction {
    pub force: Point3,
    pub torque: Point3,
}

impl View for Correction {
    type V = CorrectionModel;

    open spec fn view(&self) -> CorrectionModel {
        CorrectionModel { force: self.force@, torque: self.torque@ }
    }
}

/// The torque that turns the body toward the segment: the corrections of the
/// forward direction and of the up direction, added.
pub open spec fn aligning_torque(
    segment: Segment,
    body: Kinematics,
    weight: int,
    config: ControllerConfig,
) -> V3 {
    let p = weighted(config.rotation_gain as int, weight);
    let r = weighted(config.rotation_damping as int, weight);
    let fraction = config.sub_target_fraction as int;
    let forward_error = alignment_error(
        segment.direction(),
        body.orientation.forward_dir(),
        fraction,
    );
    let up_error = alignment_error(segment.up@, body.orientation.up_dir(), fraction);
    control(forward_error, body.angular_velocity@, p, r).plus(
        control(up_error, body.angular_velocity@, p, r),
    )
}

/// The force that pulls the body toward `closest`, a point of the segment's lifted
/// centre line: the correction of the position without its part along the segment.
pub open spec fn centering_force(
    segment: Segment,
    closest: V3,
    body: Kinematics,
    weight: int,
    config: ControllerConfig,
) -> V3 {
    let p = weighted(config.position_gain as int, weight);
    let r = weighted(config.position_damping as int, weight);
    lateral_part(
        control(closest.minus(body.position@), body.linear_velocity@, p, r),
        segment.direction(),
    )
}

/// Some segment has the nearest candidate.
pub open spec fn has_nearest(segments: Seq<Segment>, position: V3, height: int) -> bool {
    exists|i: int| is_nearest(segments, position, height, i)
}

/// The place of the segment with the nearest candidate, where there is one.
pub open spec fn nearest_index(segments: Seq<Segment>, position: V3, height: int) -> int {
    choose|i: int| is_nearest(segments, position, height, i)
}

/// The correction for a body: none where the perpendicular from the body meets no
/// segment, none where the nearest point of the road is farther than the influence
/// radius, and else the centering force and the aligning torque of the nearest
/// segment.
pub open spec fn guidance(
    segments: Seq<Segment>,
    body: Kinematics,
    weight: int,
    config: ControllerConfig,
) -> Option<CorrectionModel> {
    let position = body.position@;
    let height = config.float_height as int;
    if !has_nearest(segments, position, height) {
        None
    } else {
        let segment = segments[nearest_index(segments, position, height)];
        if gap_sq(segment, position, height) > config.influence_radius
            * config.influence_radius {
            None
        } else {
            Some(
                CorrectionModel {
                    force: centering_force(
                        segment,
                        candidate_of(segment, position, height).unwrap(),
                        body,
                        weight,
                        config,
                    ),
                    torque: aligning_torque(segment, body, weight, config),
                },
            )
        }
    }
}

/// Computes the correction for one body: the force and the torque to add to those
/// that act on it already.
pub fn guide_entity(
    road_network: &RoadNetwork,
    body: &Kinematics,
    weight: i64,
    config: &ControllerConfig,
) -> (r: Option<Correction>)
    requires
        road_network.wf(),
        body.wf(),
        config.wf(),
        -GAIN_MAX <= weight <= GAIN_MAX,
    ensures
        correction_is(r, guidance(road_network.road_segments@, *body, weight as int, *config)),
{
    let ghost segments = road_network.road_segments@;
    let ghost height = config.float_height as int;
    let found = match nearest_segment(road_network, body.position, config.float_height) {
        Some(found) => found,
        None => {
            assert(!has_nearest(segments, body.position@, height)) by {
                if has_nearest(segments, body.position@, height) {
                    let i = nearest_index(segments, body.position@, height);
                    assert(candidate_of(segments[i], body.position@, height) is None);
                }
            }
            return None;
        },
    };
    proof {
        lemma_nearest_is_unique(
            segments,
            body.position@,
            height,
            found.index as int,
            nearest_index(segments, body.position@, height),
        );
        lemma_product_bound(
            config.influence_radius as int,
            config.influence_radius as int,
            100_000_000,
            100_000_000,
        );
    }
    let radius: i128 = config.influence_radius as i128;
    let radius_sq: u128 = (radius * radius) as u128;
    if found.distance_sq > radius_sq {
        return None;
    }
    let segment = road_network.road_segments[found.index];
    let direction = segment.b.minus(segment.a);

    let p_rot = weighted_gain(config.rotation_gain, weight);
    let r_rot = weighted_gain(config.rotation_damping, weight);
    let forward_error = alignment(
        direction,
        body.orientation.forward(),
        config.sub_target_fraction,
    );
    let up_error = alignment(segment.up, body.orientation.up(), config.sub_target_fraction);
    let torque = apply_control(forward_error, body.angular_velocity, p_rot, r_rot).plus(
        apply_control(up_error, body.angular_velocity, p_rot, r_rot),
    );

    let p_pos = weighted_gain(config.position_gain, weight);
    let r_pos = weighted_gain(config.position_damping, weight);
    let delta_position = found.point.minus(body.position);
    let centering = apply_control(delta_position, body.linear_velocity, p_pos, r_pos);
    let force = remove_projection(centering, direction);
    Some(Correction { force, torque })
}

/// A body that the controller guides: its handle, the weight by which the gains
/// are scaled for it, and what could be read of it. `None` stands for a body that
/// is gone or that lacks a position or a velocity.
#[derive(Clone, Copy, PartialEq, Eq, Structural, Debug)]
pub struct GuidedEntity {
    pub entity: u64,
    pub weight: i64,
    pub kinematics: Option<Kinematics>,
}

impl GuidedEntity {
    /// The weight is within [`GAIN_MAX`], and so is what was read of the body.
    pub open spec fn wf(&self) -> bool {
        &&& -GAIN_MAX <= self.weight <= GAIN_MAX
        &&& self.kinematics matches Some(body) ==> body.wf()
    }

    /// The correction for this body: none where nothing could be read of it, and
    /// else what [`guidance`] gives.
    pub open spec fn guidance(
        &self,
        segments: Seq<Segment>,
        config: ControllerConfig,
    ) -> Option<CorrectionModel> {
        match self.kinematics {
            Some(body) => guidance(segments, body, self.weight as int, config),
            None => None,
        }
    }
}

/// `correction` stands for `model`.
pub open spec fn correction_is(correction: Option<Correction>, model: Option<CorrectionModel>) -> bool {
    match correction {
        Some(c) => model == Some(c@),
        None => model is None,
    }
}

/// Computes the corrections for several bodies, each by itself: the result holds,
/// in the order of `entities`, the correction for each body, or `None` where the
/// body gets none.
pub fn bring_entities_closer_to_road(
    road_network: &RoadNetwork,
    entities: &Vec<GuidedEntity>,
    config: &ControllerConfig,
) -> (corrections: Vec<Option<Correction>>)
    requires
        road_network.wf(),
        config.wf(),
        forall|i: int| 0 <= i < entities@.len() ==> (#[trigger] entities@[i]).wf(),
    ensures
        corrections@.len() == entities@.len(),
        forall|i: int|
            0 <= i < entities@.len() ==> correction_is(
                #[trigger] corrections@[i],
                entities@[i].guidance(road_network.road_segments@, *config),
            ),
{
    let mut corrections: Vec<Option<Correction>> = Vec::new();
    let mut index: usize = 0;
    while index < entities.len()
        invariant
            index <= entities.len(),
            road_network.wf(),
            config.wf(),
            forall|i: int| 0 <= i < entities@.len() ==> (#[trigger] entities@[i]).wf(),
            corrections@.len() == index,
            forall|i: int|
                0 <= i < index ==> correction_is(
                    #[trigger] corrections@[i],
                    entities@[i].guidance(road_network.road_segments@, *config),
                ),
        decreases entities.len() - index,
    {
        let guided = entities[index];
        let correction = match guided.kinematics {
            Some(body) => guide_entity(road_network, &body, guided.weight, config),
            None => None,
        };
        corrections.push(correction);
        index += 1;
    }
    corrections
}

/// The force that the controller applies has no part along the road, up to
/// rounding: where a body is guided, the force is nearly perpendicular to the
/// direction of the nearest segment. Its part along the unit direction is below the
/// square root of three thousandths.
pub proof fn lemma_applied_force_is_perpendicular(
    segments: Seq<Segment>,
    body: Kinematics,
    weight: int,
    config: ControllerConfig,
    i: int,
)
    requires
        is_nearest(segments, body.position@, config.float_height as int, i),
        segments[i].direction() != V3::zero(),
        guidance(segments, body, weight, config) is Some,
    ensures
        nearly_perpendicular(
            guidance(segments, body, weight, config)->0.force,
            segments[i].direction(),
        ),
{
    let position = body.position@;
    let height = config.float_height as int;
    lemma_nearest_is_unique(segments, position, height, i, nearest_index(segments, position, height));
    let p = weighted(config.position_gain as int, weight);
    let r = weighted(config.position_damping as int, weight);
    let closest = candidate_of(segments[i], position, height).unwrap();
    lemma_lateral_part_is_perpendicular(
        control(closest.minus(position), body.linear_velocity@, p, r),
        segments[i].direction(),
    );
}

/// A body beyond the influence radius gets no correction: where the nearest point
/// of the road is farther from the body than the radius, the guidance is `None`.
pub proof fn lemma_no_guidance_beyond_radius(
    segments: Seq<Segment>,
    body: Kinematics,
    weight: int,
    config: ControllerConfig,
    i: int,
)
    requires
        is_nearest(segments, body.position@, config.float_height as int, i),
        gap_sq(segments[i], body.position@, config.float_height as int)
            > config.influence_radius * config.influence_radius,
    ensures
        guidance(segments, body, weight, config) is None,
{
    lemma_nearest_is_unique(
        segments,
        body.position@,
        config.float_height as int,
        i,
        nearest_index(segments, body.position@, config.float_height as int),
    );
}

/// A body at rest that sits on the lifted centre line of the nearest segment, looks
/// along the segment and has the segment's up direction is left alone: the
/// guidance is a zero force and a zero torque.
pub proof fn lemma_equilibrium(
    segments: Seq<Segment>,
    body: Kinematics,
    weight: int,
    config: ControllerConfig,
    i: int,
)
    requires
        is_nearest(segments, body.position@, config.float_height as int, i),
        candidate_of(segments[i], body.position@, config.float_height as int) == Some(
            body.position@,
        ),
        segments[i].direction() != V3::zero(),
        segments[i].direction().normalized().cross(body.orientation.forward_dir()) == V3::zero(),
        segments[i].up@.normalized().cross(body.orientation.up_dir()) == V3::zero(),
        body.linear_velocity@ == V3::zero(),
        body.angular_velocity@ == V3::zero(),
    ensures
        guidance(segments, body, weight, config) == Some(CorrectionModel::zero()),
{
    let position = body.position@;
    let height = config.float_height as int;
    let segment = segments[i];
    lemma_nearest_is_unique(segments, position, height, i, nearest_index(segments, position, height));
    assert(gap_sq(segment, position, height) == 0);
    assert(config.influence_radius * config.influence_radius >= 0) by (nonlinear_arith);
    let fraction = config.sub_target_fraction as int;
    assert(alignment_error(segment.direction(), body.orientation.forward_dir(), fraction)
        == V3::zero()) by {
        assert(0 * fraction == 0);
    }
    assert(alignment_error(segment.up@, body.orientation.up_dir(), fraction) == V3::zero()) by {
        assert(0 * fraction == 0);
    }
    lemma_control_at_rest(
        weighted(config.rotation_gain as int, weight),
        weighted(config.rotation_damping as int, weight),
    );
    lemma_control_at_rest(
        weighted(config.position_gain as int, weight),
        weighted(config.position_damping as int, weight),
    );
    assert(position.minus(position) == V3::zero());
    let d = segment.direction();
    lemma_norm_sq_sign(d);
    assert(lateral_part(V3::zero(), d) == V3::zero()) by {
        assert(V3::zero().dot(d) == 0) by (nonlinear_arith);
        assert(d.times(0) == V3::zero()) by (nonlinear_arith);
    }
}

/// Without error and without motion the controller corrects nothing.
proof fn lemma_control_at_rest(p: int, r: int)
    ensures
        control(V3::zero(), V3::zero(), p, r) == V3::zero(),
{
    assert(0 * p + 0 * r == 0) by (nonlinear_arith);
}

} // verus!
