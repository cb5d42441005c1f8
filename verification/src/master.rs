//! The master server: the top of the hierarchy. It owns the clusters and
//! delivers events to every one of them unconditionally — the master has no
//! sibling to filter against.

use crate::cluster::ServerCluster;
use crate::event::GameEvent;
use crate::ids::fresh_id;
use vstd::prelude::*;

verus! {

/// No two clusters in the sequence share an identifier.
pub open spec fn unique_cluster_ids(q: Seq<ServerCluster>) -> bool {
    forall|i: int, j: int|
        #![trigger q[i], q[j]]
        0 <= i < q.len() && 0 <= j < q.len() && i != j ==> q[i].id != q[j].id
}

/// Some cluster in the sequence carries the identifier.
pub open spec fn has_cluster_id(q: Seq<ServerCluster>, id: u128) -> bool {
    exists|i: int| 0 <= i < q.len() && (#[trigger] q[i]).id == id
}

/// The index of the cluster carrying the identifier; meaningful when
/// [`has_cluster_id`] holds and the identifiers are unique.
pub open spec fn cluster_id_index(q: Seq<ServerCluster>, id: u128) -> int {
    choose|i: int| 0 <= i < q.len() && (#[trigger] q[i]).id == id
}

/// The collection of clusters after inserting one by its identifier:
/// last-write-wins, as for servers within a cluster.
pub open spec fn clusters_add(q: Seq<ServerCluster>, c: ServerCluster) -> Seq<ServerCluster> {
    if has_cluster_id(q, c.id) {
        q.update(cluster_id_index(q, c.id), c)
    } else {
        q.push(c)
    }
}

/// The top-level master server managing multiple server clusters.
#[derive(Debug)]
pub struct MasterServer {
    /// Unique identifier for the master server
    pub id: u128,
    /// The server clusters managed by this master server, each under a
    /// distinct identifier
    pub clusters: Vec<ServerCluster>,
}

impl MasterServer {
    /// The master server is well formed: every owned cluster is well formed
    /// and no two owned clusters share an identifier.
    pub open spec fn wf(self) -> bool {
        &&& forall|i: int| 0 <= i < self.clusters@.len() ==> (#[trigger] self.clusters@[i]).wf()
        &&& unique_cluster_ids(self.clusters@)
    }

    /// Creates a new master server with a fresh identifier and no clusters.
    pub fn new() -> (m: MasterServer)
        ensures
            m.clusters@ == Seq::<ServerCluster>::empty(),
            m.wf(),
    {
        MasterServer { id: fresh_id(), clusters: Vec::new() }
    }

    /// Adds a server cluster to the master server, keyed by the cluster's
    /// identifier, with the same last-write-wins semantics as server
    /// insertion: a cluster already held under that identifier is silently
    /// replaced.
    pub fn add_cluster(&mut self, cluster: ServerCluster)
        requires
            old(self).wf(),
            cluster.wf(),
        ensures
            final(self).wf(),
            final(self).id == old(self).id,
            final(self).clusters@ == clusters_add(old(self).clusters@, cluster),
    {
        let ghost q = self.clusters@;
        let n = self.clusters.len();
        for i in 0..n
            invariant
                self == old(self),
                old(self).wf(),
                cluster.wf(),
                q == self.clusters@,
                n == self.clusters@.len(),
                forall|j: int| 0 <= j < i ==> (#[trigger] q[j]).id != cluster.id,
        {
            if self.clusters[i].id == cluster.id {
                proof {
                    assert(q[i as int].id == cluster.id);
                    assert(has_cluster_id(q, cluster.id));
                    let k = cluster_id_index(q, cluster.id);
                    assert(0 <= k < q.len() && q[k].id == cluster.id);
                    if k != i {
                        assert(q[k].id != q[i as int].id);
                        assert(false);
                    }
                }
                let slot = &mut self.clusters[i];
                *slot = cluster;
                proof {
                    let qu = self.clusters@;
                    assert(qu =~= q.update(i as int, cluster));
                    assert(qu =~= clusters_add(q, cluster));
                    assert forall|j: int| 0 <= j < qu.len() implies (#[trigger] qu[j]).wf() by {
                        if j != i {
                            assert(qu[j] == q[j]);
                        }
                    }
                    assert forall|a: int, b: int|
                        #![trigger qu[a], qu[b]]
                        0 <= a < qu.len() && 0 <= b < qu.len() && a != b implies qu[a].id
                        != qu[b].id by {
                        assert(qu[a].id == q[a].id);
                        assert(qu[b].id == q[b].id);
                    }
                }
                return ;
            }
        }
        proof {
            assert(!has_cluster_id(q, cluster.id));
        }
        self.clusters.push(cluster);
        proof {
            let qu = self.clusters@;
            assert(qu =~= q.push(cluster));
            assert(qu =~= clusters_add(q, cluster));
            assert forall|j: int| 0 <= j < qu.len() implies (#[trigger] qu[j]).wf() by {
                if j < q.len() {
                    assert(qu[j] == q[j]);
                } else {
                    assert(qu[j] == cluster);
                }
            }
            assert forall|a: int, b: int|
                #![trigger qu[a], qu[b]]
                0 <= a < qu.len() && 0 <= b < qu.len() && a != b implies qu[a].id != qu[b].id by {
                if a < q.len() && b < q.len() {
                    assert(qu[a] == q[a] && qu[b] == q[b]);
                } else if a < q.len() {
                    assert(qu[b] == cluster && qu[a] == q[a]);
                } else {
                    assert(qu[a] == cluster && qu[b] == q[b]);
                }
            }
        }
    }

    /// Propagates an event globally: the event is forwarded to every owned
    /// cluster unconditionally, each cluster filters to its intersecting
    /// servers, and no state is mutated. Cluster-level overflow signals are
    /// not surfaced to the caller here; overflow is observable at the
    /// cluster and server level.
    pub fn propagate_event(&mut self, event: &GameEvent)
        requires
            old(self).wf(),
            event.wf(),
        ensures
            *final(self) == *old(self),
    {
        let n = self.clusters.len();
        for i in 0..n
            invariant
                self == old(self),
                old(self).wf(),
                event.wf(),
                n == self.clusters@.len(),
        {
            let cluster = &self.clusters[i];
            cluster.event_overflows(event);
        }
    }
}

} // verus!
