//! Road-relative guidance for driven vehicles.
//!
//! A vehicle paints a road by driving: the points it passes become the directed
//! segments of a [`network::RoadNetwork`]. From then on bodies that come near the
//! road are nudged back onto it, as if they ran on rails. This crate holds the rules
//! of that game and nothing of its machinery:
//!
//! - [`direction`], [`projection`] and [`geometry`]: unit vectors and how exact
//!   they are, the projection of a vector on a direction and of a point on a
//!   segment, and triangle normals;
//! - [`network`]: the road, its macros, and the edits that lay, clear, record and
//!   replay segments;
//! - [`mesh`]: the road as a ribbon of triangles with mitred joints;
//! - [`nearest`], [`control`] and [`controller`]: the search for the nearest point
//!   of the road, the control law, and the force and torque that guide a body;
//! - [`game`] and [`drive`]: the state of a game and its steps, one call for each
//!   tick or event.
//!
//! The crate reads no device and owns no physics world or renderer. Its steps take
//! what was read of the bodies as plain values and answer with plain values: a mesh
//! to show, a force to add, a joint to create.
//!
//! Numbers are fixed-point: every coordinate, speed and gain is a whole number of
//! thousandths (see [`fixed`]). All results are exact functions of the inputs, stated
//! over the mathematical vectors of [`vector::V3`], and hold on every machine.

pub mod control;
pub mod controller;
pub mod direction;
pub mod drive;
pub mod fixed;
pub mod frame;
pub mod game;
pub mod geometry;
pub mod mesh;
pub mod nearest;
pub mod network;
pub mod projection;
pub mod vector;
