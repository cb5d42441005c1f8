//! Game servers: the leaf authorities of the hierarchy. Each server owns a
//! region of space and the sets of entity identifiers currently inside it,
//! and evaluates whether an incoming event breaches its region.

use crate::event::GameEvent;
use crate::geometry::SpatialPartition;
use crate::ids::fresh_id;
use vstd::prelude::*;

verus! {

/// Which of a server's two entity sets an identifier belongs to.
#[derive(Debug, Clone, Copy, PartialEq, Eq, Structural)]
pub enum EntityKind {
    /// A connected player
    Player,
    /// A game object
    Object,
}

/// A game server: the leaf authority over a region of space in the
/// distributed architecture.
#[derive(Debug)]
pub struct GameServer {
    /// Unique identifier for the game server
    pub id: u128,
    /// Spatial partition representing the server's area of responsibility
    pub partition: SpatialPartition,
    /// Identifiers of the players currently managed by this server, each
    /// held at most once
    pub players: Vec<u128>,
    /// Identifiers of the game objects currently managed by this server,
    /// each held at most once
    pub objects: Vec<u128>,
}

impl GameServer {
    /// The server is well formed: its region is well formed and each entity
    /// set holds no duplicates.
    pub open spec fn wf(self) -> bool {
        &&& self.partition.wf()
        &&& self.players@.no_duplicates()
        &&& self.objects@.no_duplicates()
    }

    /// The overflow signal for an event: its origin lies outside the
    /// server's region, or its radius exceeds half of the region's smallest
    /// axis extent (stated over integers as twice the radius exceeding the
    /// extent), meaning the effect sphere could not fit inside the region
    /// even if centered.
    pub open spec fn spec_overflow(self, e: GameEvent) -> bool {
        ||| !self.partition.spec_contains(e.position)
        ||| 2 * e.radius > self.partition.spec_min_extent()
    }

    /// Creates a new server over the given region, with a fresh identifier
    /// and empty entity sets.
    pub fn new(partition: SpatialPartition) -> (s: GameServer)
        requires
            partition.wf(),
        ensures
            s.partition == partition,
            s.players@ == Seq::<u128>::empty(),
            s.objects@ == Seq::<u128>::empty(),
            s.wf(),
    {
        GameServer { id: fresh_id(), partition, players: Vec::new(), objects: Vec::new() }
    }

    /// Evaluates the overflow signal for an event without mutating any
    /// state: true iff the event's origin lies outside this server's region
    /// or its radius exceeds half of the region's smallest axis extent.
    pub fn event_overflows(&self, event: &GameEvent) -> (r: bool)
        requires
            self.wf(),
            event.wf(),
        ensures
            r == self.spec_overflow(*event),
    {
        !self.partition.contains(&event.position) || 2 * event.radius
            > self.partition.min_extent()
    }

    /// Processes an event: a pure routing/diagnostic check that mutates no
    /// entity state. Returns the overflow signal, the logical OR of two
    /// independent conditions: the event origin does not lie within this
    /// server's region, or the event's radius exceeds half of the region's
    /// smallest axis extent.
    pub fn process_event(&mut self, event: &GameEvent) -> (r: bool)
        requires
            old(self).wf(),
            event.wf(),
        ensures
            *final(self) == *old(self),
            r == old(self).spec_overflow(*event),
    {
        self.event_overflows(event)
    }

    /// Adds an entity identifier to the set of the given kind. Idempotent:
    /// an identifier already present leaves the set unchanged, otherwise it
    /// is appended. The other set, the region and the server's identifier
    /// are untouched.
    pub fn add_entity(&mut self, kind: EntityKind, entity: u128)
        requires
            old(self).wf(),
        ensures
            final(self).wf(),
            final(self).id == old(self).id,
            final(self).partition == old(self).partition,
            kind == EntityKind::Player ==> {
                &&& final(self).objects@ == old(self).objects@
                &&& final(self).players@ == (if old(self).players@.contains(entity) {
                    old(self).players@
                } else {
                    old(self).players@.push(entity)
                })
            },
            kind == EntityKind::Object ==> {
                &&& final(self).players@ == old(self).players@
                &&& final(self).objects@ == (if old(self).objects@.contains(entity) {
                    old(self).objects@
                } else {
                    old(self).objects@.push(entity)
                })
            },
    {
        match kind {
            EntityKind::Player => {
                if index_of(&self.players, entity).is_none() {
                    self.players.push(entity);
                }
            },
            EntityKind::Object => {
                if index_of(&self.objects, entity).is_none() {
                    self.objects.push(entity);
                }
            },
        }
    }

    /// Removes an entity identifier from the set of the given kind.
    /// Idempotent: an absent identifier leaves the set unchanged, otherwise
    /// its single occurrence is removed. The other set, the region and the
    /// server's identifier are untouched.
    pub fn remove_entity(&mut self, kind: EntityKind, entity: u128)
        requires
            old(self).wf(),
        ensures
            final(self).wf(),
            final(self).id == old(self).id,
            final(self).partition == old(self).partition,
            kind == EntityKind::Player ==> {
                &&& final(self).objects@ == old(self).objects@
                &&& !final(self).players@.contains(entity)
                &&& if old(self).players@.contains(entity) {
                    exists|j: int|
                        0 <= j < old(self).players@.len() && old(self).players@[j] == entity
                            && final(self).players@ == old(self).players@.remove(j)
                } else {
                    final(self).players@ == old(self).players@
                }
            },
            kind == EntityKind::Object ==> {
                &&& final(self).players@ == old(self).players@
                &&& !final(self).objects@.contains(entity)
                &&& if old(self).objects@.contains(entity) {
                    exists|j: int|
                        0 <= j < old(self).objects@.len() && old(self).objects@[j] == entity
                            && final(self).objects@ == old(self).objects@.remove(j)
                } else {
                    final(self).objects@ == old(self).objects@
                }
            },
    {
        match kind {
            EntityKind::Player => {
                if let Some(i) = index_of(&self.players, entity) {
                    self.players.remove(i);
                    proof {
                        lemma_remove_unique(old(self).players@, entity, i as int);
                    }
                }
            },
            EntityKind::Object => {
                if let Some(i) = index_of(&self.objects, entity) {
                    self.objects.remove(i);
                    proof {
                        lemma_remove_unique(old(self).objects@, entity, i as int);
                    }
                }
            },
        }
    }
}

/// Finds the position of an identifier in a set of entity identifiers.
fn index_of(v: &Vec<u128>, x: u128) -> (r: Option<usize>)
    ensures
        r matches Some(i) ==> 0 <= i < v@.len() && v@[i as int] == x,
        r is None <==> !v@.contains(x),
{
    let n = v.len();
    for i in 0..n
        invariant
            n == v@.len(),
            forall|j: int| 0 <= j < i ==> v@[j] != x,
    {
        if v[i] == x {
            return Some(i);
        }
    }
    None
}

/// Removing the occurrence of a value from a duplicate-free sequence keeps
/// the sequence duplicate-free and leaves no occurrence of the value.
proof fn lemma_remove_unique(q: Seq<u128>, x: u128, j: int)
    requires
        q.no_duplicates(),
        0 <= j < q.len(),
        q[j] == x,
    ensures
        q.remove(j).no_duplicates(),
        !q.remove(j).contains(x),
{
    q.remove_ensures(j);
    let r = q.remove(j);
    assert forall|k: int| 0 <= k < r.len() implies r[k] != x by {
        if k < j {
            assert(r[k] == q[k]);
        } else {
            assert(r[k] == q[k + 1]);
        }
    }
    assert forall|a: int, b: int|
        0 <= a < r.len() && 0 <= b < r.len() && a != b implies r[a] != r[b] by {
        let a0: int = if a < j {
            a
        } else {
            a + 1
        };
        let b0: int = if b < j {
            b
        } else {
            b + 1
        };
        assert(r[a] == q[a0]);
        assert(r[b] == q[b0]);
    }
}

} // verus!
