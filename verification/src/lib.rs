//! A three-tier spatial sharding hierarchy for a distributed simulated world.
//!
//! A [`MasterServer`] owns a set of [`ServerCluster`]s, each cluster owns a
//! set of [`GameServer`]s, and each server is responsible for an axis-aligned
//! region of 3D space (a [`SpatialPartition`]). A [`GameEvent`] carries an
//! origin position and a radius of effect; propagation determines which
//! servers must observe it and whether its effect region crosses a declared
//! boundary (an "overflow"), so that boundary-adjacent state can be
//! reconciled or escalated by the caller.
//!
//! The core performs routing and boundary-violation detection only: it does
//! not resolve event effects, and it holds no state beyond the ownership
//! topology itself.

pub mod cluster;
pub mod event;
pub mod geometry;
mod ids;
pub mod master;
pub mod server;

pub use cluster::ServerCluster;
pub use event::EventError;
pub use event::GameEvent;
pub use event::GameObject;
pub use geometry::COORD_LIMIT;
pub use geometry::SpatialPartition;
pub use master::MasterServer;
pub use geometry::Vector3;
pub use server::EntityKind;
pub use server::GameServer;
