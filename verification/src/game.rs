//! The state of the simulation and its per-tick and per-event steps.
//!
//! The steps decide and compute; they touch no physics world, no renderer and no
//! input device. Each takes what was read of the bodies and answers with what is
//! to be done: the surroundings read, call, and carry the answer out.

use vstd::prelude::*;
use crate::controller::{
    bring_entities_closer_to_road, correction_is, guidance, ControllerConfig, Correction,
    CorrectionModel, GuidedEntity, Kinematics,
};
use crate::frame::Pose;
use crate::mesh::{build_road_network, RoadMesh};
use crate::network::{AppendOutcome, EntityTarget, ReplayOutcome, RoadNetwork};
use crate::vector::{Point3, V3};

verus! {

/// The distance within which a trailer can be coupled: ten world units.
pub const TRAILER_ATTACH_DISTANCE: i64 = 10_000;

/// The square of [`TRAILER_ATTACH_DISTANCE`].
pub const TRAILER_ATTACH_DISTANCE_SQ: u128 = 100_000_000;

/// The weight of the vehicle in the controller.
pub const VEHICLE_WEIGHT: i64 = 1_000;

/// The weight of the trailer in the controller.
pub const TRAILER_WEIGHT: i64 = 1_500;

/// Where the camera should be and what it should look at.
#[derive(Clone, Copy, PartialEq, Eq, Structural, Debug)]
pub struct CameraTarget {
    pub position: Option<Point3>,
    pub up: Option<Point3>,
    pub look_at: Option<Point3>,
}

impl Default for CameraTarget {
    /// The target of which nothing is known yet.
    fn default() -> (target: CameraTarget)
        ensures
            target.position is None,
            target.up is None,
            target.look_at is None,
    {
        CameraTarget { position: None, up: None, look_at: None }
    }
}

/// The joint that couples a trailer to its tow vehicle: a hinge about `axis`, fixed
/// at one anchor in the frame of each body.
#[derive(Clone, Copy, PartialEq, Eq, Structural, Debug)]
pub struct TrailerJoint {
    pub tow_vehicle: u64,
    pub axis: Point3,
    pub anchor_on_vehicle: Point3,
    pub anchor_on_trailer: Point3,
}

/// The hinge of a trailer behind `tow_vehicle`: about the vertical axis, three units
/// behind the centre of the vehicle and five units ahead of the centre of the
/// trailer.
pub open spec fn is_hinge_behind(joint: TrailerJoint, tow_vehicle: u64) -> bool {
    &&& joint.tow_vehicle == tow_vehicle
    &&& joint.axis@ == (V3 { x: 0, y: 1_000, z: 0 })
    &&& joint.anchor_on_vehicle@ == (V3 { x: 0, y: 0, z: 3_000 })
    &&& joint.anchor_on_trailer@ == (V3 { x: 0, y: 0, z: -5_000 })
}

/// The state of the simulation. Bodies and renderables are known by their handles.
#[derive(Clone, Debug, PartialEq, Eq)]
pub struct Game {
    pub player_car: Option<u64>,
    pub trailer: Option<u64>,
    /// The joint between vehicle and trailer while they are coupled.
    pub trailer_joint: Option<TrailerJoint>,
    pub camera_target: CameraTarget,
    pub camera: Option<u64>,
    pub road_network: RoadNetwork,
    /// The renderable that shows the road at present.
    pub road_network_entity: Option<u64>,
}

impl Default for Game {
    /// The game before anything was created: no body, no camera, an empty road.
    fn default() -> (game: Game)
        ensures
            game.player_car is None,
            game.trailer is None,
            game.trailer_joint is None,
            game.camera is None,
            game.road_network_entity is None,
            game.road_network.last_position is None,
            game.road_network.road_segments@.len() == 0,
            game.road_network.macros@.len() == 0,
            game.road_network.wf(),
    {
        Game {
            player_car: None,
            trailer: None,
            trailer_joint: None,
            camera_target: CameraTarget { position: None, up: None, look_at: None },
            camera: None,
            road_network: RoadNetwork::new(),
            road_network_entity: None,
        }
    }
}

impl Game {
    /// The tuning of the controller for the game as it is: that for towing while the
    /// trailer is coupled, and else that for a vehicle alone.
    pub fn tuning(&self) -> (config: ControllerConfig)
        ensures
            config.wf(),
            config.is_standard_tuning(),
            self.trailer_joint is Some ==> config.influence_radius == 30_000,
            self.trailer_joint is None ==> config.influence_radius == 10_000,
    {
        if self.trailer_joint.is_some() {
            ControllerConfig::towing()
        } else {
            ControllerConfig::solo()
        }
    }
}

/// What a rebuild of the road's renderable asks of the renderer.
#[derive(Clone, Debug, PartialEq, Eq)]
pub struct MeshRefresh {
    /// The renderable to destroy, if the road was shown before.
    pub despawn: Option<u64>,
    /// The mesh of the renderable to create.
    pub mesh: RoadMesh,
}

/// Rebuilds the mesh of the road from the network as it is now. The renderable
/// that showed the road before is handed out for destruction and forgotten; the
/// caller creates the new one and stores its handle in `road_network_entity`.
pub fn refresh_road_network(game: &mut Game) -> (refresh: MeshRefresh)
    requires
        old(game).road_network.wf(),
    ensures
        refresh.despawn == old(game).road_network_entity,
        refresh.mesh.is_ribbon_of(old(game).road_network.road_segments@),
        refresh.mesh.positions@.len() == 4 * old(game).road_network.road_segments@.len(),
        refresh.mesh.indices@.len() == 6 * old(game).road_network.road_segments@.len(),
        *final(game) == (Game { road_network_entity: None, ..*old(game) }),
{
    let despawn = game.road_network_entity;
    game.road_network_entity = None;
    MeshRefresh { despawn, mesh: build_road_network(&game.road_network) }
}

/// The corrections of one tick.
#[derive(Clone, Copy, PartialEq, Eq, Structural, Debug)]
pub struct RoadCorrections {
    /// What to add to the force and torque on the vehicle.
    pub vehicle: Option<Correction>,
    /// What to add to the force and torque on the trailer.
    pub trailer: Option<Correction>,
}

/// The correction for a body of the game: none where the game has no such body or
/// nothing could be read of it, and else what [`guidance`] gives.
pub open spec fn guidance_of(
    game: Game,
    handle: Option<u64>,
    body: Option<Kinematics>,
    weight: int,
    config: ControllerConfig,
) -> Option<CorrectionModel> {
    if handle is Some && body is Some {
        guidance(game.road_network.road_segments@, body->0, weight, config)
    } else {
        None
    }
}

/// One tick of the guidance: the corrections that pull the vehicle and the trailer
/// toward the road, each computed by itself. `vehicle` and `trailer` are what could
/// be read of the two bodies.
pub fn road_physics_system(
    game: &Game,
    config: &ControllerConfig,
    vehicle: Option<Kinematics>,
    trailer: Option<Kinematics>,
) -> (corrections: RoadCorrections)
    requires
        game.road_network.wf(),
        config.wf(),
        vehicle matches Some(body) ==> body.wf(),
        trailer matches Some(body) ==> body.wf(),
    ensures
        correction_is(
            corrections.vehicle,
            guidance_of(*game, game.player_car, vehicle, VEHICLE_WEIGHT as int, *config),
        ),
        correction_is(
            corrections.trailer,
            guidance_of(*game, game.trailer, trailer, TRAILER_WEIGHT as int, *config),
        ),
{
    let mut entities: Vec<GuidedEntity> = Vec::new();
    if let Some(entity) = game.player_car {
        entities.push(GuidedEntity { entity, weight: VEHICLE_WEIGHT, kinematics: vehicle });
    }
    if let Some(entity) = game.trailer {
        entities.push(GuidedEntity { entity, weight: TRAILER_WEIGHT, kinematics: trailer });
    }
    let found = bring_entities_closer_to_road(&game.road_network, &entities, config);
    let vehicle_correction = if game.player_car.is_some() {
        found[0]
    } else {
        None
    };
    let trailer_index: usize = if game.player_car.is_some() {
        1
    } else {
        0
    };
    let trailer_correction = if game.trailer.is_some() {
        found[trailer_index]
    } else {
        None
    };
    RoadCorrections { vehicle: vehicle_correction, trailer: trailer_correction }
}

/// What the user asks of the editor.
#[derive(Clone, Copy, PartialEq, Eq, Structural, Debug)]
pub enum EditEvent {
    /// Lay the next point of the road where the vehicle is.
    AppendSegment,
    /// Write the network out.
    Export,
    /// Clear the road and start again at the origin.
    Reset,
    /// Record the road as a macro.
    RecordMacro,
    /// Lay the last macro down again where the vehicle is.
    ReplayMacro,
    /// Couple the trailer, or uncouple it.
    ToggleTrailer,
}

/// What the surroundings have to do after an edit.
#[derive(Clone, Copy, PartialEq, Eq, Structural, Debug)]
pub enum EditAction {
    /// Nothing.
    Nothing,
    /// The road changed: show its new mesh.
    RefreshMesh,
    /// The road was cleared: put the vehicle at the origin, clear the force and the
    /// torque that act on it, and show the new mesh.
    ResetAndRefresh,
    /// A macro was laid down: move the vehicle to the end of the road, turn it as
    /// the target says, and show the new mesh.
    MoveAndRefresh(EntityTarget),
    /// Write the network out.
    Export,
    /// Create this joint between vehicle and trailer.
    AttachTrailer(TrailerJoint),
    /// Remove the joint between vehicle and trailer.
    DetachTrailer,
}

/// The trailer can be coupled: the game has a vehicle and a trailer, both could be
/// read, and they are within [`TRAILER_ATTACH_DISTANCE`] of each other.
pub open spec fn can_attach(game: Game, vehicle: Option<Pose>, trailer: Option<Pose>) -> bool {
    &&& game.player_car is Some
    &&& game.trailer is Some
    &&& vehicle is Some
    &&& trailer is Some
    &&& vehicle->0.position@.minus(trailer->0.position@).norm_sq() <= TRAILER_ATTACH_DISTANCE
        * TRAILER_ATTACH_DISTANCE
}

/// `after` and `action` are what an edit makes of `game` on `event`, but for the
/// renderable of the road.
pub open spec fn is_edited(
    game: Game,
    after: Game,
    event: EditEvent,
    vehicle: Option<Pose>,
    trailer: Option<Pose>,
    action: EditAction,
) -> bool {
    let road = game.road_network;
    match event {
        EditEvent::AppendSegment => match vehicle {
            None => action == EditAction::Nothing && after == game,
            Some(pose) => {
                &&& after == (Game { road_network: after.road_network, ..game })
                &&& road.is_appended(after.road_network, pose.position, pose.orientation.y_axis)
                &&& action == if road.append_outcome(pose.position)
                    == AppendOutcome::SegmentAdded {
                    EditAction::RefreshMesh
                } else {
                    EditAction::Nothing
                }
            },
        },
        EditEvent::Export => action == EditAction::Export && after == game,
        EditEvent::Reset => {
            &&& after == (Game { road_network: after.road_network, ..game })
            &&& road.is_reset(after.road_network)
            &&& action == EditAction::ResetAndRefresh
        },
        EditEvent::RecordMacro => {
            &&& after == (Game { road_network: after.road_network, ..game })
            &&& road.is_recorded(after.road_network)
            &&& action == EditAction::Nothing
        },
        EditEvent::ReplayMacro => match vehicle {
            None => action == EditAction::Nothing && after == game,
            Some(pose) => if road.macros@.len() == 0 || !road.replay_fits(pose) {
                action == EditAction::Nothing && after == game
            } else {
                &&& after == (Game { road_network: after.road_network, ..game })
                &&& road.is_replay_of(after.road_network, pose)
                &&& if road.macros@.last().road_segments@.len() == 0 {
                    action == EditAction::RefreshMesh
                } else {
                    &&& action matches EditAction::MoveAndRefresh(target)
                    &&& target.is_end_of(after.road_network.road_segments@)
                }
            },
        },
        EditEvent::ToggleTrailer => if game.trailer_joint is Some {
            &&& after == (Game { trailer_joint: None, ..game })
            &&& action == EditAction::DetachTrailer
        } else if can_attach(game, vehicle, trailer) {
            &&& after == (Game { trailer_joint: after.trailer_joint, ..game })
            &&& after.trailer_joint matches Some(joint)
            &&& is_hinge_behind(joint, game.player_car->0)
            &&& action == EditAction::AttachTrailer(joint)
        } else {
            &&& after == game
            &&& action == EditAction::Nothing
        },
    }
}

/// The edit changed the road, so that its mesh is rebuilt.
pub open spec fn changes_road(action: EditAction) -> bool {
    action is RefreshMesh || action is ResetAndRefresh || action is MoveAndRefresh
}

/// An edit as the surroundings see it: what is left for them to do, and the rebuild
/// of the road's renderable where the road changed.
#[derive(Clone, Debug, PartialEq, Eq)]
pub struct Edit {
    pub action: EditAction,
    pub refresh: Option<MeshRefresh>,
}

impl Edit {
    /// The edit carries a rebuild exactly where its action changed the road: then
    /// the renderable that `game` had is handed out for destruction, `after` has
    /// none, and the mesh is that of the road of `after`.
    pub open spec fn is_refresh_of(&self, game: Game, after: Game) -> bool {
        if changes_road(self.action) {
            &&& self.refresh matches Some(refresh)
            &&& refresh.despawn == game.road_network_entity
            &&& refresh.mesh.is_ribbon_of(after.road_network.road_segments@)
            &&& after.road_network_entity is None
        } else {
            &&& self.refresh is None
            &&& after.road_network_entity == game.road_network_entity
        }
    }
}

/// One step of the editor: changes the road network and the coupling as `event`
/// asks, rebuilds the mesh of the road where the road changed, and answers with
/// what the surroundings have to do. `vehicle` and `trailer` are what could be read
/// of the two bodies; an edit that needs a body that could not be read does
/// nothing.
pub fn road_network_creation_system(
    game: &mut Game,
    event: EditEvent,
    vehicle: Option<Pose>,
    trailer: Option<Pose>,
) -> (edit: Edit)
    requires
        old(game).road_network.wf(),
        vehicle matches Some(pose) ==> pose.wf(),
        trailer matches Some(pose) ==> pose.wf(),
    ensures
        final(game).road_network.wf(),
        is_edited(
            *old(game),
            (Game { road_network_entity: old(game).road_network_entity, ..*final(game) }),
            event,
            vehicle,
            trailer,
            edit.action,
        ),
        edit.is_refresh_of(*old(game), *final(game)),
{
    let action = apply_edit(game, event, vehicle, trailer);
    let refresh = match action {
        EditAction::RefreshMesh | EditAction::ResetAndRefresh | EditAction::MoveAndRefresh(_) => {
            Some(refresh_road_network(game))
        },
        _ => None,
    };
    Edit { action, refresh }
}

/// The edit itself, without the rebuild of the mesh.
fn apply_edit(
    game: &mut Game,
    event: EditEvent,
    vehicle: Option<Pose>,
    trailer: Option<Pose>,
) -> (action: EditAction)
    requires
        old(game).road_network.wf(),
        vehicle matches Some(pose) ==> pose.wf(),
        trailer matches Some(pose) ==> pose.wf(),
    ensures
        final(game).road_network.wf(),
        is_edited(*old(game), *final(game), event, vehicle, trailer, action),
{
    match event {
        EditEvent::AppendSegment => match vehicle {
            None => EditAction::Nothing,
            Some(pose) => {
                match game.road_network.append_segment(pose.position, pose.orientation.up()) {
                    AppendOutcome::SegmentAdded => EditAction::RefreshMesh,
                    _ => EditAction::Nothing,
                }
            },
        },
        EditEvent::Export => EditAction::Export,
        EditEvent::Reset => {
            game.road_network.reset();
            EditAction::ResetAndRefresh
        },
        EditEvent::RecordMacro => {
            game.road_network.record_macro();
            EditAction::Nothing
        },
        EditEvent::ReplayMacro => match vehicle {
            None => EditAction::Nothing,
            Some(pose) => {
                let outcome = game.road_network.replay_macro(&pose);
                assert(old(game).road_network.is_replayed(game.road_network, pose, outcome));
                match outcome {
                    ReplayOutcome::Replayed(Some(target)) => EditAction::MoveAndRefresh(target),
                    ReplayOutcome::Replayed(None) => EditAction::RefreshMesh,
                    _ => EditAction::Nothing,
                }
            },
        },
        EditEvent::ToggleTrailer => {
            if game.trailer_joint.is_some() {
                game.trailer_joint = None;
                return EditAction::DetachTrailer;
            }
            let (tow_vehicle, vehicle_pose, trailer_pose) = match (
                game.player_car,
                game.trailer,
                vehicle,
                trailer,
            ) {
                (Some(car), Some(_), Some(v), Some(t)) => (car, v, t),
                _ => { return EditAction::Nothing; },
            };
            let distance_sq = vehicle_pose.position.minus(trailer_pose.position).norm_sq();
            if distance_sq > TRAILER_ATTACH_DISTANCE_SQ {
                return EditAction::Nothing;
            }
            let joint = TrailerJoint {
                tow_vehicle,
                axis: Point3 { x: 0, y: 1_000, z: 0 },
                anchor_on_vehicle: Point3 { x: 0, y: 0, z: 3_000 },
                anchor_on_trailer: Point3 { x: 0, y: 0, z: -5_000 },
            };
            game.trailer_joint = Some(joint);
            EditAction::AttachTrailer(joint)
        },
    }
}

} // verus!
