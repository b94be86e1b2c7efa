//! Driving: from the keys that are held to the force and torque on the vehicle, and
//! from the vehicle to the place of the camera that follows it.

use vstd::prelude::*;
use crate::controller::{Correction, CorrectionModel};
use crate::fixed::{lemma_product_bound, lemma_trunc_div_of_multiple_bound, UNIT};
use crate::frame::{Orientation, Pose};
use crate::game::{CameraTarget, Game};
use crate::vector::{Point3, V3};

verus! {

/// The push of the engine forward: a hundred units of force.
pub const FORWARD_FORCE: i64 = 100_000;

/// The push of the engine backward: forty units of force against the forward
/// direction.
pub const BACKWARD_FORCE: i64 = -40_000;

/// The torque of steering and of rolling: twelve units.
pub const STEER_TORQUE: i64 = 12_000;

/// The torque of pitching: twenty-five units.
pub const PITCH_TORQUE: i64 = 25_000;

/// How far behind the vehicle the camera sits: twenty units.
pub const CAMERA_DISTANCE: i64 = 20_000;

/// How far above the vehicle the camera sits: five units.
pub const CAMERA_HEIGHT: i64 = 5_000;

/// The driving keys that are held during a tick.
#[derive(Clone, Copy, PartialEq, Eq, Structural, Debug)]
pub struct DriveInput {
    pub forward: bool,
    pub backward: bool,
    pub steer_left: bool,
    pub steer_right: bool,
    pub roll_left: bool,
    pub roll_right: bool,
    pub pitch_up: bool,
    pub pitch_down: bool,
}

/// The torque, in the frame of the vehicle, that the held keys ask for. Where
/// several are held the last of steer left, steer right, roll left, roll right,
/// pitch up and pitch down decides.
pub open spec fn local_torque(input: DriveInput) -> V3 {
    if input.pitch_down {
        V3 { x: PITCH_TORQUE as int, y: 0, z: 0 }
    } else if input.pitch_up {
        V3 { x: -PITCH_TORQUE, y: 0, z: 0 }
    } else if input.roll_right {
        V3 { x: 0, y: 0, z: -STEER_TORQUE }
    } else if input.roll_left {
        V3 { x: 0, y: 0, z: STEER_TORQUE as int }
    } else if input.steer_right {
        V3 { x: 0, y: -STEER_TORQUE, z: 0 }
    } else if input.steer_left {
        V3 { x: 0, y: STEER_TORQUE as int, z: 0 }
    } else {
        V3::zero()
    }
}

/// The force along the forward direction that the held keys ask for; backward
/// decides where both are held.
pub open spec fn engine_push(input: DriveInput) -> int {
    if input.backward {
        BACKWARD_FORCE as int
    } else if input.forward {
        FORWARD_FORCE as int
    } else {
        0
    }
}

/// The force and torque that the held keys put on the vehicle: the engine pushes
/// along the forward direction of the vehicle, and the torque is turned from the
/// frame of the vehicle into the world. They replace what acted on the vehicle
/// before.
pub open spec fn drive_of(input: DriveInput, orientation: Orientation) -> CorrectionModel {
    CorrectionModel {
        force: orientation.forward_dir().scaled(engine_push(input)),
        torque: orientation.rotated(local_torque(input)),
    }
}

/// The force and torque that the held keys put on the vehicle.
pub fn keyboard_input_system(input: DriveInput, orientation: &Orientation) -> (drive: Correction)
    requires
        orientation.wf(),
    ensures
        drive@ == drive_of(input, *orientation),
{
    let push: i64 = if input.backward {
        BACKWARD_FORCE
    } else if input.forward {
        FORWARD_FORCE
    } else {
        0
    };
    let forward = orientation.forward();
    proof {
        lemma_scaled_unit_bound(forward@, push as int, 100_000);
    }
    let force = forward.scaled(push);

    let mut local = Point3 { x: 0, y: 0, z: 0 };
    if input.steer_left {
        local = Point3 { x: 0, y: STEER_TORQUE, z: 0 };
    }
    if input.steer_right {
        local = Point3 { x: 0, y: -STEER_TORQUE, z: 0 };
    }
    if input.roll_left {
        local = Point3 { x: 0, y: 0, z: STEER_TORQUE };
    }
    if input.roll_right {
        local = Point3 { x: 0, y: 0, z: -STEER_TORQUE };
    }
    if input.pitch_up {
        local = Point3 { x: -PITCH_TORQUE, y: 0, z: 0 };
    }
    if input.pitch_down {
        local = Point3 { x: PITCH_TORQUE, y: 0, z: 0 };
    }
    let torque = orientation.rotate(local);
    Correction { force, torque }
}

/// A vector within [`UNIT`], scaled by `k` of magnitude at most `m`, is within `m`.
proof fn lemma_scaled_unit_bound(v: V3, k: int, m: int)
    requires
        v.within(UNIT as int),
        -m <= k <= m,
    ensures
        v.scaled(k).within(m),
{
    lemma_product_bound(v.x, k, 1000, m);
    lemma_product_bound(v.y, k, 1000, m);
    lemma_product_bound(v.z, k, 1000, m);
    assert(1000 * m == m * 1000);
    lemma_trunc_div_of_multiple_bound(v.x * k, 1000, m);
    lemma_trunc_div_of_multiple_bound(v.y * k, 1000, m);
    lemma_trunc_div_of_multiple_bound(v.z * k, 1000, m);
}

/// Where the camera belongs when it follows a body at `pose`: it looks at the body
/// from [`CAMERA_DISTANCE`] behind and [`CAMERA_HEIGHT`] above it, with the body's
/// up direction for its own.
pub open spec fn follows(target: CameraTarget, pose: Pose) -> bool {
    &&& target.look_at == Some(pose.position)
    &&& target.up == Some(pose.orientation.y_axis)
    &&& target.position matches Some(p)
    &&& p@ == pose.position@.plus(pose.orientation.forward_dir().scaled(-CAMERA_DISTANCE)).plus(
        pose.orientation.up_dir().scaled(CAMERA_HEIGHT as int),
    )
}

/// Points the camera target at the vehicle. Without a vehicle, or where the vehicle
/// could not be read, the target stays as it is.
pub fn camera_target_car_system(game: &mut Game, car: Option<Pose>)
    requires
        car matches Some(pose) ==> pose.wf(),
    ensures
        *final(game) == (Game { camera_target: final(game).camera_target, ..*old(game) }),
        old(game).player_car is Some && car is Some ==> follows(
            final(game).camera_target,
            car->0,
        ),
        old(game).player_car is None || car is None ==> final(game).camera_target == old(
            game,
        ).camera_target,
{
    if game.player_car.is_none() {
        return ;
    }
    let pose = match car {
        Some(pose) => pose,
        None => { return ; },
    };
    let forward = pose.orientation.forward();
    let up = pose.orientation.up();
    proof {
        lemma_scaled_unit_bound(forward@, -CAMERA_DISTANCE, 20_000);
        lemma_scaled_unit_bound(up@, CAMERA_HEIGHT as int, 5_000);
    }
    let behind = forward.scaled(-CAMERA_DISTANCE);
    let above = up.scaled(CAMERA_HEIGHT);
    game.camera_target =
    CameraTarget {
        position: Some(pose.position.plus(behind).plus(above)),
        up: Some(up),
        look_at: Some(pose.position),
    };
}

/// Where to put a camera: at `position`, looking at `look_at`, with `up` overhead.
#[derive(Clone, Copy, PartialEq, Eq, Structural, Debug)]
pub struct CameraPlacement {
    pub position: Point3,
    pub look_at: Point3,
    pub up: Point3,
}

/// Where to put the camera of the game: at its target, if the game has a camera and
/// the target is complete.
pub open spec fn placement_of(game: Game) -> Option<CameraPlacement> {
    if game.camera is Some && game.camera_target.look_at is Some
        && game.camera_target.position is Some && game.camera_target.up is Some {
        Some(
            CameraPlacement {
                position: game.camera_target.position->0,
                look_at: game.camera_target.look_at->0,
                up: game.camera_target.up->0,
            },
        )
    } else {
        None
    }
}

/// Where to put the camera of the game: at its target, if the game has a camera and
/// the target is complete.
pub fn camera_target_target_system(game: &Game) -> (placement: Option<CameraPlacement>)
    ensures
        placement == placement_of(*game),
{
    if game.camera.is_none() {
        return None;
    }
    match (game.camera_target.look_at, game.camera_target.position, game.camera_target.up) {
        (Some(look_at), Some(position), Some(up)) => Some(
            CameraPlacement { position, look_at, up },
        ),
        _ => None,
    }
}

} // verus!
