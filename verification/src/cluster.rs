//! The topology store of one connection: its servers by name.

use crate::entries::distinct_keys;
use crate::entries::lemma_put;
use crate::entries::lemma_swap_removed;
use crate::entries::put;
use crate::entries::swap_removed;
use crate::entries::value_of;
use crate::ordered::cluster_entries;
use crate::ordered::cluster_map_clone;
use crate::ordered::cluster_map_get;
use crate::ordered::cluster_map_get_index;
use crate::ordered::cluster_map_get_index_mut;
use crate::ordered::cluster_map_insert;
use crate::ordered::cluster_map_len;
use crate::ordered::cluster_map_new;
use crate::ordered::cluster_map_remove;
use crate::server::Server;
use crate::server::ServerView;
use ordermap::OrderMap;
use vstd::prelude::*;

verus! {

/// The servers of a cluster by name, in the order in which the names came.
pub struct Cluster {
    map: OrderMap<String, Server>,
}

impl View for Cluster {
    type V = Seq<(Seq<char>, ServerView)>;

    closed spec fn view(&self) -> Seq<(Seq<char>, ServerView)> {
        cluster_entries(self.map)
    }
}

/// Every name occurs once, a server stands under its own name and has an
/// address.
pub open spec fn well_formed(entries: Seq<(Seq<char>, ServerView)>) -> bool {
    &&& distinct_keys(entries)
    &&& forall|i: int|
        0 <= i < entries.len() ==> (#[trigger] entries[i]).0 == entries[i].1.name
            && entries[i].1.addresses.len() > 0
}

/// The entries with the latency of the server at `index` replaced.
pub open spec fn with_latency(
    entries: Seq<(Seq<char>, ServerView)>,
    index: int,
    latency: u128,
) -> Seq<(Seq<char>, ServerView)> {
    entries.update(index, (entries[index].0, ServerView { latency: latency, ..entries[index].1 }))
}

/// The entries after each of the first `upto` servers got what its run of
/// probes found; a server without a run keeps its latency.
pub open spec fn probed_cluster(
    entries: Seq<(Seq<char>, ServerView)>,
    outcomes: Seq<Vec<Option<u128>>>,
    upto: int,
) -> Seq<(Seq<char>, ServerView)> {
    Seq::new(
        entries.len(),
        |i: int|
            if i < upto && i < outcomes.len() {
                (
                    entries[i].0,
                    ServerView { latency: entries[i].1.probed(outcomes[i]@), ..entries[i].1 },
                )
            } else {
                entries[i]
            },
    )
}

/// What each of some servers holds.
pub open spec fn server_views(servers: Seq<Server>) -> Seq<ServerView> {
    Seq::new(servers.len(), |i: int| servers[i]@)
}

/// The servers of some entries, without their keys.
pub open spec fn values(entries: Seq<(Seq<char>, ServerView)>) -> Seq<ServerView> {
    Seq::new(entries.len(), |i: int| entries[i].1)
}

impl Cluster {
    /// What holds of every cluster: it is well formed.
    #[verifier::type_invariant]
    pub open spec fn wf(&self) -> bool {
        well_formed(self@)
    }

    /// Takes the map out, and leaves an empty one.
    fn take(&mut self) -> (map: OrderMap<String, Server>)
        ensures
            cluster_entries(map) == old(self)@,
            well_formed(old(self)@),
            final(self)@ == Seq::<(Seq<char>, ServerView)>::empty(),
    {
        proof {
            use_type_invariant(&*self);
        }
        let mut map = cluster_map_new();
        std::mem::swap(&mut map, &mut self.map);
        map
    }

    /// A cluster without servers.
    pub fn new() -> (r: Cluster)
        ensures
            r@ == Seq::<(Seq<char>, ServerView)>::empty(),
            r.wf(),
    {
        Cluster { map: cluster_map_new() }
    }

    /// The number of servers.
    pub fn len(&self) -> (n: usize)
        ensures
            n == self@.len(),
    {
        cluster_map_len(&self.map)
    }

    /// Puts the server under its name: in the place of the server that had the
    /// name, or behind the others. A server without an address is not taken;
    /// the answer says whether the server was.
    pub fn insert(&mut self, server: Server) -> (taken: bool)
        ensures
            final(self).wf(),
            taken == (server@.addresses.len() > 0),
            final(self)@ == if taken {
                put(old(self)@, server@.name, server@)
            } else {
                old(self)@
            },
    {
        if server.addresses.len() == 0 {
            proof {
                use_type_invariant(&*self);
            }
            return false;
        }
        let key = server.name.clone();
        let mut map = self.take();
        proof {
            lemma_put(cluster_entries(map), server@.name, server@);
        }
        cluster_map_insert(&mut map, key, server);
        self.map = map;
        true
    }

    /// Takes out the server of that name, if there is one; the last server
    /// then moves to its place.
    pub fn remove(&mut self, name: &str)
        ensures
            final(self).wf(),
            final(self)@ == swap_removed(old(self)@, name@),
    {
        let mut map = self.take();
        proof {
            lemma_swap_removed(cluster_entries(map), name@);
        }
        cluster_map_remove(&mut map, name);
        self.map = map;
    }

    /// The server of that name.
    pub fn get(&self, name: &str) -> (r: Option<&Server>)
        ensures
            match r {
                Some(server) => value_of(self@, name@) == Some(server@),
                None => value_of(self@, name@) == None::<ServerView>,
            },
    {
        proof {
            use_type_invariant(self);
        }
        cluster_map_get(&self.map, name)
    }

    /// The server at a place, counted from the first that came.
    pub fn server_at(&self, index: usize) -> (r: Option<&Server>)
        ensures
            match r {
                Some(server) => index < self@.len() && server@ == self@[index as int].1,
                None => index >= self@.len(),
            },
    {
        cluster_map_get_index(&self.map, index)
    }

    /// Records what a run of probes found for the server at `index`: the time
    /// of the first probe that got through, or nothing new where none did.
    pub fn set_latency_at(&mut self, index: usize, outcomes: &Vec<Option<u128>>)
        ensures
            final(self).wf(),
            index < old(self)@.len() ==> final(self)@ == with_latency(
                old(self)@,
                index as int,
                old(self)@[index as int].1.probed(outcomes@),
            ),
            index >= old(self)@.len() ==> final(self)@ == old(self)@,
    {
        let mut map = self.take();
        match cluster_map_get_index_mut(&mut map, index) {
            Some(server) => {
                server.set_latency(outcomes);
            },
            None => {},
        }
        proof {
            if index < old(self)@.len() {
                assert(cluster_entries(map) =~= with_latency(
                    old(self)@,
                    index as int,
                    old(self)@[index as int].1.probed(outcomes@),
                ));
            }
        }
        self.map = map;
    }

    /// Records for every server what its run of probes found: `outcomes`
    /// holds the runs in the order of the servers.
    pub fn set_latency(&mut self, outcomes: &Vec<Vec<Option<u128>>>)
        ensures
            final(self).wf(),
            final(self)@ == probed_cluster(old(self)@, outcomes@, old(self)@.len() as int),
    {
        let n = self.len();
        let mut i: usize = 0;
        assert(self@ =~= probed_cluster(old(self)@, outcomes@, 0));
        while i < n && i < outcomes.len()
            invariant
                i <= n,
                n == old(self)@.len(),
                self@ == probed_cluster(old(self)@, outcomes@, i as int),
            decreases n - i,
        {
            self.set_latency_at(i, &outcomes[i]);
            assert(self@ =~= probed_cluster(old(self)@, outcomes@, i + 1));
            i += 1;
        }
        assert(self@ =~= probed_cluster(old(self)@, outcomes@, n as int));
        proof {
            use_type_invariant(&*self);
        }
    }

    /// The servers, in their order.
    pub fn servers(&self) -> (r: Vec<Server>)
        ensures
            server_views(r@) == values(self@),
    {
        let n = self.len();
        let mut servers: Vec<Server> = Vec::new();
        let mut i: usize = 0;
        while i < n
            invariant
                i <= n,
                n == self@.len(),
                servers@.len() == i,
                forall|j: int| 0 <= j < i ==> (#[trigger] servers@[j])@ == self@[j].1,
            decreases n - i,
        {
            match self.server_at(i) {
                Some(server) => {
                    servers.push(server.clone());
                },
                None => {},
            }
            i += 1;
        }
        assert(server_views(servers@) =~= values(self@));
        servers
    }

    /// The server that answered fastest: the first of those with the lowest
    /// latency, none in a cluster without servers.
    pub fn fastest(&self) -> (r: Option<&Server>)
        ensures
            match r {
                Some(server) => exists|at: int|
                    {
                        &&& 0 <= at < self@.len()
                        &&& server@ == (#[trigger] self@[at]).1
                        &&& forall|j: int|
                            0 <= j < self@.len() ==> server@.latency <= (#[trigger] self@[j]).1.latency
                        &&& forall|j: int|
                            0 <= j < at ==> server@.latency < (#[trigger] self@[j]).1.latency
                    },
                None => self@.len() == 0,
            },
    {
        let n = self.len();
        let mut best: Option<&Server> = None;
        let mut i: usize = 0;
        let ghost mut at: int = 0;
        while i < n
            invariant
                i <= n,
                n == self@.len(),
                match best {
                    Some(server) => {
                        &&& 0 <= at < i
                        &&& server@ == self@[at].1
                        &&& forall|j: int|
                            0 <= j < i ==> server@.latency <= (#[trigger] self@[j]).1.latency
                        &&& forall|j: int|
                            0 <= j < at ==> server@.latency < (#[trigger] self@[j]).1.latency
                    },
                    None => i == 0,
                },
            decreases n - i,
        {
            match self.server_at(i) {
                Some(server) => {
                    let better = match best {
                        Some(so_far) => *server < *so_far,
                        None => true,
                    };
                    if better {
                        best = Some(server);
                        proof {
                            at = i as int;
                        }
                    }
                },
                None => {},
            }
            i += 1;
        }
        best
    }

    /// A copy with the same servers in the same order.
    pub fn duplicate(&self) -> (r: Cluster)
        ensures
            r@ == self@,
            r.wf(),
    {
        proof {
            use_type_invariant(self);
        }
        Cluster { map: cluster_map_clone(&self.map) }
    }
}

} // verus!
