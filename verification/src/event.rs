//! Events and world objects: the values the propagation protocol routes.

use crate::geometry::COORD_LIMIT;
use crate::geometry::Vector3;
use crate::ids::fresh_id;
use vstd::prelude::*;

verus! {

/// Declares `serde_json::Value` so that it can stand in fields. The
/// hierarchy carries event and object payloads opaquely: nothing here reads
/// inside a payload, it is handed back to the caller untouched.
#[verifier::external_type_specification]
#[verifier::external_body]
pub struct ExValue(serde_json::Value);

/// Why an event was rejected at construction.
#[derive(Debug, Clone, Copy, PartialEq, Eq, Structural)]
pub enum EventError {
    /// The event was malformed: a negative radius, or an origin or radius
    /// beyond the coordinate range the propagation arithmetic admits.
    InvalidEvent,
}

/// An event in the game world: an immutable value with a type tag, an
/// origin position, a radius of effect and an opaque payload. It is the
/// unit the propagation protocol routes.
#[derive(Debug)]
pub struct GameEvent {
    /// Unique identifier for the event
    pub id: u128,
    /// Type of the event
    pub event_type: String,
    /// Position where the event occurred
    pub position: Vector3,
    /// Radius of effect for the event
    pub radius: i64,
    /// Additional data associated with the event
    pub data: serde_json::Value,
}

impl GameEvent {
    /// The event is well formed: its origin is bounded and its radius is
    /// non-negative and bounded.
    pub open spec fn wf(self) -> bool {
        &&& self.position.bounded()
        &&& 0 <= self.radius <= COORD_LIMIT
    }

    /// Creates a new event with a fresh identifier.
    ///
    /// A malformed event — a negative radius, or an origin coordinate or
    /// radius whose magnitude exceeds [`COORD_LIMIT`] — is rejected here,
    /// never discovered mid-propagation: the call returns
    /// [`EventError::InvalidEvent`] exactly on those inputs.
    pub fn new(event_type: String, position: Vector3, radius: i64, data: serde_json::Value) -> (r:
        Result<GameEvent, EventError>)
        ensures
            r is Ok <==> (position.bounded() && 0 <= radius <= COORD_LIMIT),
            r matches Ok(ev) ==> {
                &&& ev.wf()
                &&& ev.event_type@ == event_type@
                &&& ev.position == position
                &&& ev.radius == radius
                &&& ev.data == data
            },
            r matches Err(e) ==> e == EventError::InvalidEvent,
    {
        if position.is_bounded() && radius >= 0 && radius <= COORD_LIMIT {
            Ok(GameEvent { id: fresh_id(), event_type, position, radius, data })
        } else {
            Err(EventError::InvalidEvent)
        }
    }
}

/// An object placed in the game world, carried by the hierarchy as a data
/// payload: propagation never reads inside it.
#[derive(Debug)]
pub struct GameObject {
    /// Unique identifier for the game object
    pub id: u128,
    /// Position of the game object in 3D space
    pub position: Vector3,
    /// Type of the game object
    pub object_type: String,
    /// Additional properties of the game object
    pub properties: serde_json::Value,
}

impl GameObject {
    /// Creates a new game object with a fresh identifier.
    pub fn new(position: Vector3, object_type: String, properties: serde_json::Value) -> (o:
        GameObject)
        ensures
            o.position == position,
            o.object_type@ == object_type@,
            o.properties == properties,
    {
        GameObject { id: fresh_id(), position, object_type, properties }
    }
}

} // verus!
