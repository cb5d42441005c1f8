//! Server clusters: the middle tier of the hierarchy. A cluster owns a
//! region and a collection of game servers keyed by identifier, fans an
//! event out to every server whose region the event's effective bounds
//! reach, and aggregates the overflow signals.

use crate::event::GameEvent;
use crate::geometry::SpatialPartition;
use crate::ids::fresh_id;
use crate::server::GameServer;
use vstd::prelude::*;

verus! {

/// No two servers in the sequence share an identifier.
pub open spec fn unique_server_ids(q: Seq<GameServer>) -> bool {
    forall|i: int, j: int|
        #![trigger q[i], q[j]]
        0 <= i < q.len() && 0 <= j < q.len() && i != j ==> q[i].id != q[j].id
}

/// Some server in the sequence carries the identifier.
pub open spec fn has_server_id(q: Seq<GameServer>, id: u128) -> bool {
    exists|i: int| 0 <= i < q.len() && (#[trigger] q[i]).id == id
}

/// The index of the server carrying the identifier; meaningful when
/// [`has_server_id`] holds and the identifiers are unique.
pub open spec fn server_id_index(q: Seq<GameServer>, id: u128) -> int {
    choose|i: int| 0 <= i < q.len() && (#[trigger] q[i]).id == id
}

/// The collection of servers after inserting one by its identifier:
/// last-write-wins. An entry already carrying the identifier is replaced in
/// place; otherwise the server is appended.
pub open spec fn servers_add(q: Seq<GameServer>, s: GameServer) -> Seq<GameServer> {
    if has_server_id(q, s.id) {
        q.update(server_id_index(q, s.id), s)
    } else {
        q.push(s)
    }
}

/// The event's effective bounds (its origin grown by its radius on every
/// axis) overlap the region, with inclusive bounds on every axis.
pub open spec fn spec_event_reaches(p: SpatialPartition, e: GameEvent) -> bool {
    &&& p.min.x <= e.position.x + e.radius && p.max.x >= e.position.x - e.radius
    &&& p.min.y <= e.position.y + e.radius && p.max.y >= e.position.y - e.radius
    &&& p.min.z <= e.position.z + e.radius && p.max.z >= e.position.z - e.radius
}

/// A cluster dispatches an event to a server iff the server's region
/// contains the event's origin or intersects the event's effective bounds.
pub open spec fn spec_dispatched(s: GameServer, e: GameEvent) -> bool {
    ||| s.partition.spec_contains(e.position)
    ||| spec_event_reaches(s.partition, e)
}

/// The overflow signal a cluster over `partition` holding the servers `q`
/// reports for an event: some dispatched server reports overflow, or the
/// event's origin lies outside the cluster's own region.
pub open spec fn spec_cluster_overflow(
    partition: SpatialPartition,
    q: Seq<GameServer>,
    e: GameEvent,
) -> bool {
    ||| exists|i: int|
        0 <= i < q.len() && spec_dispatched(#[trigger] q[i], e) && q[i].spec_overflow(e)
    ||| !partition.spec_contains(e.position)
}

/// A cluster of game servers: the middle tier of the distributed
/// architecture.
#[derive(Debug)]
pub struct ServerCluster {
    /// Unique identifier for the cluster
    pub id: u128,
    /// Spatial partition representing the cluster's area of responsibility
    pub partition: SpatialPartition,
    /// The game servers owned by this cluster, each under a distinct
    /// identifier
    pub servers: Vec<GameServer>,
}

impl ServerCluster {
    /// The cluster is well formed: its region is well formed, every owned
    /// server is well formed, and no two owned servers share an identifier.
    pub open spec fn wf(self) -> bool {
        &&& self.partition.wf()
        &&& forall|i: int|
            0 <= i < self.servers@.len() ==> (#[trigger] self.servers@[i]).wf()
        &&& unique_server_ids(self.servers@)
    }

    /// The overflow signal this cluster reports for an event.
    pub open spec fn spec_overflow(self, e: GameEvent) -> bool {
        spec_cluster_overflow(self.partition, self.servers@, e)
    }

    /// Creates a new cluster over the given region, with a fresh identifier
    /// and no servers.
    pub fn new(partition: SpatialPartition) -> (c: ServerCluster)
        requires
            partition.wf(),
        ensures
            c.partition == partition,
            c.servers@ == Seq::<GameServer>::empty(),
            c.wf(),
    {
        ServerCluster { id: fresh_id(), partition, servers: Vec::new() }
    }

    /// Adds a game server to the cluster, keyed by the server's
    /// identifier. Last-write-wins: a server already held under that
    /// identifier is silently replaced, so the number of servers grows only
    /// when the identifier is new. Callers must guarantee identifier
    /// uniqueness externally if overwrite is undesired.
    pub fn add_server(&mut self, server: GameServer)
        requires
            old(self).wf(),
            server.wf(),
        ensures
            final(self).wf(),
            final(self).id == old(self).id,
            final(self).partition == old(self).partition,
            final(self).servers@ == servers_add(old(self).servers@, server),
    {
        let ghost q = self.servers@;
        let n = self.servers.len();
        for i in 0..n
            invariant
                self == old(self),
                old(self).wf(),
                server.wf(),
                q == self.servers@,
                n == self.servers@.len(),
                forall|j: int| 0 <= j < i ==> (#[trigger] q[j]).id != server.id,
        {
            if self.servers[i].id == server.id {
                proof {
                    assert(q[i as int].id == server.id);
                    assert(has_server_id(q, server.id));
                    let k = server_id_index(q, server.id);
                    assert(0 <= k < q.len() && q[k].id == server.id);
                    if k != i {
                        assert(q[k].id != q[i as int].id);
                        assert(false);
                    }
                }
                let slot = &mut self.servers[i];
                *slot = server;
                proof {
                    let qu = self.servers@;
                    assert(qu =~= q.update(i as int, server));
                    assert(qu =~= servers_add(q, server));
                    assert forall|j: int| 0 <= j < qu.len() implies (#[trigger] qu[j]).wf() by {
                        if j != i {
                            assert(qu[j] == q[j]);
                        }
                    }
                    assert forall|a: int, b: int|
                        #![trigger qu[a], qu[b]]
                        0 <= a < qu.len() && 0 <= b < qu.len() && a != b implies qu[a].id
                        != qu[b].id by {
                        assert(qu[a].id == q[a].id);
                        assert(qu[b].id == q[b].id);
                    }
                }
                return ;
            }
        }
        proof {
            assert(!has_server_id(q, server.id));
        }
        self.servers.push(server);
        proof {
            let qu = self.servers@;
            assert(qu =~= q.push(server));
            assert(qu =~= servers_add(q, server));
            assert forall|j: int| 0 <= j < qu.len() implies (#[trigger] qu[j]).wf() by {
                if j < q.len() {
                    assert(qu[j] == q[j]);
                } else {
                    assert(qu[j] == server);
                }
            }
            assert forall|a: int, b: int|
                #![trigger qu[a], qu[b]]
                0 <= a < qu.len() && 0 <= b < qu.len() && a != b implies qu[a].id != qu[b].id by {
                if a < q.len() && b < q.len() {
                    assert(qu[a] == q[a] && qu[b] == q[b]);
                } else if a < q.len() {
                    assert(qu[b] == server && qu[a] == q[a]);
                } else {
                    assert(qu[a] == server && qu[b] == q[b]);
                }
            }
        }
    }

    /// Evaluates the overflow signal for an event without mutating any
    /// state: true iff some server whose region the event reaches reports
    /// overflow, or the event's origin lies outside this cluster's region.
    pub fn event_overflows(&self, event: &GameEvent) -> (r: bool)
        requires
            self.wf(),
            event.wf(),
        ensures
            r == self.spec_overflow(*event),
    {
        let mut cluster_overflow = false;
        let origin_box = SpatialPartition::new(event.position, event.position);
        let effective = origin_box.expanded_by(event.radius);
        let n = self.servers.len();
        for i in 0..n
            invariant
                self.wf(),
                event.wf(),
                n == self.servers@.len(),
                effective.min.x == event.position.x - event.radius,
                effective.min.y == event.position.y - event.radius,
                effective.min.z == event.position.z - event.radius,
                effective.max.x == event.position.x + event.radius,
                effective.max.y == event.position.y + event.radius,
                effective.max.z == event.position.z + event.radius,
                cluster_overflow == exists|j: int|
                    0 <= j < i && spec_dispatched(#[trigger] self.servers@[j], *event)
                        && self.servers@[j].spec_overflow(*event),
        {
            let server = &self.servers[i];
            if server.partition.contains(&event.position) || server.partition.intersects(
                &effective,
            ) {
                let server_overflow = server.event_overflows(event);
                cluster_overflow = cluster_overflow || server_overflow;
            }
        }
        cluster_overflow || !self.partition.contains(&event.position)
    }

    /// Propagates an event to the relevant servers within the cluster: every
    /// server whose region contains the event's origin or intersects the
    /// event's effective bounds (origin grown by radius per axis) evaluates
    /// it, and the per-server overflow signals are ORed together with the
    /// cluster-boundary check — the event's origin lying outside the
    /// cluster's own region counts as overflow, independent of any server
    /// result. The set of servers visited depends only on geometry, never on
    /// insertion order, and no state is mutated.
    pub fn propagate_event(&mut self, event: &GameEvent) -> (r: bool)
        requires
            old(self).wf(),
            event.wf(),
        ensures
            *final(self) == *old(self),
            r == old(self).spec_overflow(*event),
    {
        self.event_overflows(event)
    }
}

/// Shard overflow evaluation cannot extend a dispatched server's reach: a
/// server is dispatched iff the event's geometry demands it, so a proof
/// that transfers a dispatched, overflowing server from one collection to
/// another needs only that the server itself is present.
proof fn lemma_overflow_witness_transfer(q1: Seq<GameServer>, q2: Seq<GameServer>, e: GameEvent)
    requires
        q1.to_multiset() == q2.to_multiset(),
        exists|i: int|
            0 <= i < q1.len() && spec_dispatched(#[trigger] q1[i], e) && q1[i].spec_overflow(e),
    ensures
        exists|i: int|
            0 <= i < q2.len() && spec_dispatched(#[trigger] q2[i], e) && q2[i].spec_overflow(e),
{
    broadcast use vstd::seq_lib::group_to_multiset_ensures;

    let i = choose|i: int|
        0 <= i < q1.len() && spec_dispatched(#[trigger] q1[i], e) && q1[i].spec_overflow(e);
    let w = q1[i];
    assert(q1.contains(w));
    assert(q2.to_multiset().count(w) > 0);
    assert(q2.contains(w));
    let j = choose|j: int| 0 <= j < q2.len() && q2[j] == w;
    assert(spec_dispatched(q2[j], e) && q2[j].spec_overflow(e));
}

/// Propagation is order-independent: two collections holding the same
/// servers — however they were added, in whatever order — yield the same
/// overflow signal for the same event over the same cluster region, because
/// dispatch depends only on geometry and OR is commutative and associative.
pub proof fn lemma_propagate_order_independent(
    partition: SpatialPartition,
    q1: Seq<GameServer>,
    q2: Seq<GameServer>,
    e: GameEvent,
)
    requires
        q1.to_multiset() == q2.to_multiset(),
    ensures
        spec_cluster_overflow(partition, q1, e) == spec_cluster_overflow(partition, q2, e),
{
    if exists|i: int|
        0 <= i < q1.len() && spec_dispatched(#[trigger] q1[i], e) && q1[i].spec_overflow(e) {
        lemma_overflow_witness_transfer(q1, q2, e);
    }
    if exists|i: int|
        0 <= i < q2.len() && spec_dispatched(#[trigger] q2[i], e) && q2[i].spec_overflow(e) {
        lemma_overflow_witness_transfer(q2, q1, e);
    }
}

/// Inserting a server by its identifier is idempotent: a second insertion
/// of the same server changes nothing, so exactly one server stands under
/// that identifier and the collection's length is unaffected by the second
/// call.
pub proof fn lemma_add_server_idempotent(q: Seq<GameServer>, s: GameServer)
    requires
        unique_server_ids(q),
    ensures
        servers_add(servers_add(q, s), s) == servers_add(q, s),
        servers_add(servers_add(q, s), s).len() == servers_add(q, s).len(),
{
    let q1 = servers_add(q, s);
    if has_server_id(q, s.id) {
        let k = server_id_index(q, s.id);
        assert(0 <= k < q.len() && q[k].id == s.id);
        assert(q1 == q.update(k, s));
        assert(q1[k] == s);
        assert(has_server_id(q1, s.id));
        let k2 = server_id_index(q1, s.id);
        assert(0 <= k2 < q1.len() && q1[k2].id == s.id);
        if k2 != k {
            assert(q1[k2] == q[k2]);
            assert(q[k2].id == q[k].id);
            assert(false);
        }
        assert(servers_add(q1, s) =~= q.update(k, s));
    } else {
        assert(q1 == q.push(s));
        assert(q1[q.len() as int] == s);
        assert(has_server_id(q1, s.id));
        let k2 = server_id_index(q1, s.id);
        assert(0 <= k2 < q1.len() && q1[k2].id == s.id);
        if k2 < q.len() {
            assert(q1[k2] == q[k2]);
            assert(has_server_id(q, s.id));
            assert(false);
        }
        assert(k2 == q.len());
        assert(servers_add(q1, s) =~= q1);
    }
}

} // verus!
