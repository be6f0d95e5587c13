//! The registry of connections: the configuration and the session pool of
//! each handle.

use crate::cluster::probed_cluster;
use crate::cluster::well_formed;
use crate::cluster::Cluster;
use crate::config::Config;
use crate::config::ConfigView;
use crate::config::Connection;
use crate::config::Registration;
use crate::config::RegistrationView;
use crate::entries::count_key;
use crate::entries::distinct_keys;
use crate::entries::lemma_count_distinct;
use crate::entries::lemma_free_key;
use crate::entries::has_key;
use crate::entries::lemma_position;
use crate::entries::lemma_put;
use crate::entries::lemma_swap_removed;
use crate::entries::position;
use crate::entries::put;
use crate::entries::swap_removed;
use crate::entries::value_of;
use crate::error::Error;
use crate::opts::Opts;
use crate::opts::OptsView;
use crate::ordered::registry_entries;
use crate::ordered::registry_map_get;
use crate::ordered::registry_map_get_mut;
use crate::ordered::registry_map_insert;
use crate::ordered::registry_map_len;
use crate::ordered::registry_map_new;
use crate::ordered::registry_map_remove;
use crate::server::Address;
use crate::topology::change_effect;
use crate::topology::change_kind;
use crate::topology::Applied;
use crate::topology::FeedItem;
use crate::server::Server;
use crate::server::ServerView;
use crate::server::UNREACHABLE;
use ordermap::OrderMap;
use vstd::prelude::*;

verus! {

/// What is known of every connection, by handle.
pub struct Registry {
    pub(crate) map: OrderMap<u128, Registration>,
}

impl View for Registry {
    type V = Seq<(u128, RegistrationView)>;

    closed spec fn view(&self) -> Seq<(u128, RegistrationView)> {
        registry_entries(self.map)
    }
}

/// Every handle occurs once, and every cluster is well formed.
pub open spec fn registry_wf(entries: Seq<(u128, RegistrationView)>) -> bool {
    &&& distinct_keys(entries)
    &&& forall|i: int|
        0 <= i < entries.len() ==> ((#[trigger] entries[i]).1.config matches Some(config)
            ==> well_formed(config.cluster))
}

/// What stands under a handle: nothing of either kind where the handle is
/// unknown.
pub open spec fn registration_of(entries: Seq<(u128, RegistrationView)>, id: u128) -> RegistrationView {
    match value_of(entries, id) {
        Some(registration) => registration,
        None => RegistrationView { config: None, pool: None },
    }
}

/// The entries after the handle got a configuration; what it had of a pool
/// stays.
pub open spec fn with_config(entries: Seq<(u128, RegistrationView)>, id: u128, config: ConfigView) -> Seq<
    (u128, RegistrationView),
> {
    put(entries, id, RegistrationView { config: Some(config), ..registration_of(entries, id) })
}

/// The entries after the handle got a pool; what it had of a configuration
/// stays.
pub open spec fn with_pool(entries: Seq<(u128, RegistrationView)>, id: u128, pool: u64) -> Seq<
    (u128, RegistrationView),
> {
    put(entries, id, RegistrationView { pool: Some(pool), ..registration_of(entries, id) })
}

/// The entries after the cluster of a configured handle was replaced; for a
/// handle without configuration, the entries as they are.
pub open spec fn with_cluster(
    entries: Seq<(u128, RegistrationView)>,
    id: u128,
    cluster: Seq<(Seq<char>, ServerView)>,
) -> Seq<(u128, RegistrationView)> {
    match registration_of(entries, id).config {
        Some(config) => with_config(entries, id, ConfigView { cluster, ..config }),
        None => entries,
    }
}

/// Binding a handle to a registration whose cluster is well formed keeps the
/// registry well formed.
pub proof fn lemma_put_wf(entries: Seq<(u128, RegistrationView)>, id: u128, value: RegistrationView)
    requires
        registry_wf(entries),
        value.config matches Some(config) ==> well_formed(config.cluster),
    ensures
        registry_wf(put(entries, id, value)),
{
    lemma_put(entries, id, value);
}

/// Forgetting a connection takes its configuration and its pool out together,
/// and leaves every other connection as it was.
pub proof fn lemma_removed_together(entries: Seq<(u128, RegistrationView)>, id: u128)
    requires
        registry_wf(entries),
    ensures
        registry_wf(swap_removed(entries, id)),
        registration_of(swap_removed(entries, id), id) == (RegistrationView {
            config: None,
            pool: None,
        }),
        count_key(swap_removed(entries, id), id) == 0,
        forall|other: u128|
            other != id ==> #[trigger] registration_of(swap_removed(entries, id), other)
                == registration_of(entries, other),
{
    lemma_swap_removed(entries, id);
    lemma_count_distinct(swap_removed(entries, id), id);
}

/// A handle with a configuration or a pool stands in the registry once.
pub proof fn lemma_registered_once(entries: Seq<(u128, RegistrationView)>, id: u128)
    requires
        registry_wf(entries),
        registration_of(entries, id).config is Some || registration_of(entries, id).pool is Some,
    ensures
        count_key(entries, id) == 1,
{
    lemma_count_distinct(entries, id);
}

impl Registry {
    /// What holds of every registry: it is well formed.
    #[verifier::type_invariant]
    pub open spec fn wf(&self) -> bool {
        registry_wf(self@)
    }

    /// Takes the map out, and leaves an empty one.
    fn take(&mut self) -> (map: OrderMap<u128, Registration>)
        ensures
            registry_entries(map) == old(self)@,
            registry_wf(old(self)@),
            final(self)@ == Seq::<(u128, RegistrationView)>::empty(),
    {
        proof {
            use_type_invariant(&*self);
        }
        let mut map = registry_map_new();
        std::mem::swap(&mut map, &mut self.map);
        map
    }

    /// The configuration of a connection.
    pub open spec fn config_of(&self, conn: Connection) -> Option<ConfigView> {
        registration_of(self@, conn.0).config
    }

    /// The pool of a connection.
    pub open spec fn pool_of(&self, conn: Connection) -> Option<u64> {
        registration_of(self@, conn.0).pool
    }

    /// A registry without connections.
    pub fn new() -> (r: Registry)
        ensures
            r@ == Seq::<(u128, RegistrationView)>::empty(),
            r.wf(),
    {
        Registry { map: registry_map_new() }
    }

    /// Whether the registry holds anything under the handle.
    pub fn holds(&self, conn: Connection) -> (r: bool)
        ensures
            r == has_key(self@, conn.0),
    {
        proof {
            use_type_invariant(self);
        }
        registry_map_get(&self.map, conn.0).is_some()
    }

    /// A handle under which the registry holds nothing: the one proposed,
    /// where it is free, else the lowest number that is.
    pub fn free_handle(&self, proposed: Connection) -> (r: Connection)
        ensures
            !has_key(self@, r.0),
            !has_key(self@, proposed.0) ==> r == proposed,
            has_key(self@, proposed.0) ==> forall|lower: u128|
                lower < r.0 ==> #[trigger] has_key(self@, lower),
    {
        if !self.holds(proposed) {
            return proposed;
        }
        let n = registry_map_len(&self.map);
        let mut lowest: u128 = 0;
        proof {
            lemma_free_key(self@);
        }
        while self.holds(Connection(lowest))
            invariant
                n == self@.len(),
                lowest <= n,
                forall|lower: u128| lower < lowest ==> #[trigger] has_key(self@, lower),
                exists|key: u128| key <= self@.len() && !#[trigger] has_key(self@, key),
            decreases n - lowest,
        {
            proof {
                let free = choose|key: u128| key <= self@.len() && !#[trigger] has_key(self@, key);
                assert(free != lowest);
                assert(!(free < lowest));
            }
            lowest = lowest + 1;
        }
        Connection(lowest)
    }

    /// Forgets a connection: its configuration and its pool leave together.
    pub fn remove(&mut self, conn: Connection)
        ensures
            final(self).wf(),
            final(self)@ == swap_removed(old(self)@, conn.0),
            final(self).config_of(conn) is None,
            final(self).pool_of(conn) is None,
    {
        let mut map = self.take();
        proof {
            lemma_swap_removed(registry_entries(map), conn.0);
        }
        registry_map_remove(&mut map, conn.0);
        self.map = map;
    }
}

/// A seed host with the addresses that it resolved to.
#[derive(Debug)]
pub struct Seed {
    pub host: String,
    pub addresses: Vec<Address>,
}

impl View for Seed {
    type V = (Seq<char>, Seq<Address>);

    open spec fn view(&self) -> (Seq<char>, Seq<Address>) {
        (self.host@, self.addresses@)
    }
}

/// What each of some seeds holds.
pub open spec fn seed_views(seeds: Seq<Seed>) -> Seq<(Seq<char>, Seq<Address>)> {
    Seq::new(seeds.len(), |i: int| seeds[i]@)
}

/// The cluster that the first `upto` seeds make: each host a server that no
/// probe has reached yet, under the host's name.
pub open spec fn seeded(seeds: Seq<(Seq<char>, Seq<Address>)>, upto: int) -> Seq<
    (Seq<char>, ServerView),
>
    decreases upto,
{
    if upto <= 0 || upto > seeds.len() {
        Seq::empty()
    } else {
        put(
            seeded(seeds, upto - 1),
            seeds[upto - 1].0,
            ServerView { name: seeds[upto - 1].0, addresses: seeds[upto - 1].1, latency: UNREACHABLE },
        )
    }
}

/// The place of the first seed without an address, from `from` on.
pub open spec fn first_unresolved(seeds: Seq<(Seq<char>, Seq<Address>)>, from: int) -> Option<int>
    decreases seeds.len() - from,
{
    if from < 0 || from >= seeds.len() {
        None
    } else if seeds[from].1.len() == 0 {
        Some(from)
    } else {
        first_unresolved(seeds, from + 1)
    }
}

/// The first seed without an address is a seed, and has no address.
pub proof fn lemma_first_unresolved(seeds: Seq<(Seq<char>, Seq<Address>)>, from: int)
    requires
        0 <= from,
    ensures
        first_unresolved(seeds, from) matches Some(at) ==> from <= at < seeds.len()
            && seeds[at].1.len() == 0,
    decreases seeds.len() - from,
{
    if from < seeds.len() && seeds[from].1.len() != 0 {
        lemma_first_unresolved(seeds, from + 1);
    }
}

/// The configuration that seeds, options and a runtime make.
pub open spec fn seeded_config(
    seeds: Seq<(Seq<char>, Seq<Address>)>,
    opts: OptsView,
    remote: u64,
) -> ConfigView {
    ConfigView { cluster: seeded(seeds, seeds.len() as int), opts, remote }
}

impl Connection {
    /// Installs the configuration of the connection: the cluster of the seed
    /// hosts, the options and the runtime. A seed host without an address fails
    /// the call, and nothing is installed.
    pub fn set_config(&self, registry: &mut Registry, opts: Opts, seeds: Vec<Seed>, remote: u64) -> (r:
        Result<(), Error>)
        ensures
            final(registry).wf(),
            match r {
                Ok(()) => {
                    &&& first_unresolved(seed_views(seeds@), 0) is None
                    &&& final(registry)@ == with_config(
                        old(registry)@,
                        self.0,
                        seeded_config(seed_views(seeds@), opts@, remote),
                    )
                    &&& final(registry).config_of(*self) == Some(
                        seeded_config(seed_views(seeds@), opts@, remote),
                    )
                    &&& final(registry).pool_of(*self) == old(registry).pool_of(*self)
                },
                Err(error) => {
                    &&& first_unresolved(seed_views(seeds@), 0) matches Some(at)
                    &&& 0 <= at < seeds@.len()
                    &&& error matches Error::Resolve { host }
                    &&& host@ == seeds@[at].host@
                    &&& final(registry)@ == old(registry)@
                },
            },
    {
        let mut cluster = Cluster::new();
        let ghost all = seeds@;
        proof {
            use_type_invariant(&*registry);
            lemma_first_unresolved(seed_views(all), 0);
        }
        for seed in it: seeds
            invariant
                it.seq() == all,
                *registry == *old(registry),
                registry.wf(),
                cluster.wf(),
                cluster@ == seeded(seed_views(all), it.index() as int),
                first_unresolved(seed_views(all), 0) == first_unresolved(
                    seed_views(all),
                    it.index() as int,
                ),
        {
            assert(all[it.index() as int] == seed);
            if seed.addresses.len() == 0 {
                return Err(Error::Resolve { host: seed.host });
            }
            let server = Server::new(seed.host.as_str(), seed.addresses);
            cluster.insert(server);
        }
        let mut map = registry.take();
        let pool = match registry_map_get(&map, self.0) {
            Some(registration) => registration.pool,
            None => None,
        };
        let config = Config { cluster, opts, remote };
        proof {
            let value = RegistrationView { config: Some(config@), pool };
            lemma_put_wf(registry_entries(map), self.0, value);
            lemma_put(registry_entries(map), self.0, value);
        }
        registry_map_insert(&mut map, self.0, Registration { config: Some(config), pool });
        registry.map = map;
        Ok(())
    }

    /// Empties the cluster of the connection, where it is configured.
    pub fn reset_cluster(&self, registry: &mut Registry)
        ensures
            final(registry).wf(),
            final(registry)@ == with_cluster(
                old(registry)@,
                self.0,
                Seq::<(Seq<char>, ServerView)>::empty(),
            ),
    {
        let mut map = registry.take();
        let ghost before = registry_entries(map);
        match registry_map_get_mut(&mut map, self.0) {
            Some(registration) => {
                match &mut registration.config {
                    Some(config) => {
                        config.cluster = Cluster::new();
                    },
                    None => {},
                }
            },
            None => {},
        }
        proof {
            if has_key(before, self.0) {
                if let Some(config) = registration_of(before, self.0).config {
                    let value = RegistrationView {
                        config: Some(
                            ConfigView { cluster: Seq::<(Seq<char>, ServerView)>::empty(), ..config },
                        ),
                        ..registration_of(before, self.0)
                    };
                    lemma_put_wf(before, self.0, value);
                    assert(registry_entries(map) =~= put(before, self.0, value));
                } else {
                    assert(registry_entries(map) =~= before);
                }
            }
        }
        registry.map = map;
    }

    /// Records for every server of the connection what its run of probes
    /// found: `outcomes` holds the runs in the order of the servers. Fails for
    /// a connection without configuration.
    pub fn set_latency(&self, registry: &mut Registry, outcomes: &Vec<Vec<Option<u128>>>) -> (r: Result<
        (),
        Error,
    >)
        ensures
            final(registry).wf(),
            match r {
                Ok(()) => old(registry).config_of(*self) matches Some(config) && final(registry)@
                    == with_cluster(
                    old(registry)@,
                    self.0,
                    probed_cluster(config.cluster, outcomes@, config.cluster.len() as int),
                ),
                Err(error) => old(registry).config_of(*self) is None && error
                    == Error::NotConfigured && final(registry)@ == old(registry)@,
            },
    {
        let mut map = registry.take();
        let ghost before = registry_entries(map);
        let mut done = false;
        match registry_map_get_mut(&mut map, self.0) {
            Some(registration) => {
                match &mut registration.config {
                    Some(config) => {
                        config.cluster.set_latency(outcomes);
                        done = true;
                    },
                    None => {},
                }
            },
            None => {},
        }
        proof {
            if done {
                lemma_position(before, self.0, position(before, self.0));
                let was = registration_of(before, self.0);
                let cluster = probed_cluster(
                    was.config.unwrap().cluster,
                    outcomes@,
                    was.config.unwrap().cluster.len() as int,
                );
                let value = RegistrationView {
                    config: Some(ConfigView { cluster, ..was.config.unwrap() }),
                    ..was
                };
                lemma_put_wf(before, self.0, value);
                assert(registry_entries(map) =~= put(before, self.0, value));
            } else {
                assert(registry_entries(map) =~= before);
            }
        }
        registry.map = map;
        if done {
            Ok(())
        } else {
            Err(Error::NotConfigured)
        }
    }

    /// The configuration of the connection, as it stands.
    pub fn config(&self, registry: &Registry) -> (r: Option<Config>)
        ensures
            match r {
                Some(config) => registry.config_of(*self) == Some(config@),
                None => registry.config_of(*self) is None,
            },
    {
        proof {
            use_type_invariant(registry);
        }
        match registry_map_get(&registry.map, self.0) {
            Some(registration) => match &registration.config {
                Some(config) => Some(config.clone()),
                None => None,
            },
            None => None,
        }
    }

    /// The session pool of the connection.
    pub fn pool(&self, registry: &Registry) -> (r: Option<u64>)
        ensures
            r == registry.pool_of(*self),
    {
        proof {
            use_type_invariant(registry);
        }
        match registry_map_get(&registry.map, self.0) {
            Some(registration) => registration.pool,
            None => None,
        }
    }

    /// Puts the session pool of the connection into the registry.
    pub fn set_pool(&self, registry: &mut Registry, pool: u64)
        ensures
            final(registry).wf(),
            final(registry)@ == with_pool(old(registry)@, self.0, pool),
    {
        let mut map = registry.take();
        let ghost before = registry_entries(map);
        proof {
            lemma_put_wf(
                before,
                self.0,
                RegistrationView { pool: Some(pool), ..registration_of(before, self.0) },
            );
        }
        let mut found = false;
        match registry_map_get_mut(&mut map, self.0) {
            Some(registration) => {
                registration.pool = Some(pool);
                found = true;
            },
            None => {},
        }
        if !found {
            registry_map_insert(&mut map, self.0, Registration { config: None, pool: Some(pool) });
        }
        assert(registry_entries(map) =~= with_pool(before, self.0, pool));
        registry.map = map;
    }
}

/// What an item of the feed does for a connection: a record for a configured
/// connection does what `change_kind` says, anything else is passed over.
pub open spec fn item_kind(entries: Seq<(u128, RegistrationView)>, id: u128, item: FeedItem) -> Applied {
    match item {
        FeedItem::Expected(change) => if registration_of(entries, id).config is Some {
            change_kind(change)
        } else {
            Applied::Skipped
        },
        _ => Applied::Skipped,
    }
}

/// The registry after an item of the feed: only the cluster of the connection
/// changes, as `change_effect` says.
pub open spec fn item_effect(
    entries: Seq<(u128, RegistrationView)>,
    id: u128,
    item: FeedItem,
    outcomes: Seq<Option<u128>>,
) -> Seq<(u128, RegistrationView)> {
    match item {
        FeedItem::Expected(change) => match registration_of(entries, id).config {
            Some(config) => with_cluster(
                entries,
                id,
                change_effect(config.cluster, change, outcomes),
            ),
            None => entries,
        },
        _ => entries,
    }
}

impl Connection {
    /// What an item of the change feed will do for the connection.
    pub fn kind_of(&self, registry: &Registry, item: &FeedItem) -> (r: Applied)
        ensures
            r == item_kind(registry@, self.0, *item),
    {
        proof {
            use_type_invariant(registry);
        }
        let change = match item {
            FeedItem::Expected(change) => change,
            _ => {
                return Applied::Skipped;
            },
        };
        let configured = match registry_map_get(&registry.map, self.0) {
            Some(registration) => registration.config.is_some(),
            None => false,
        };
        if !configured {
            return Applied::Skipped;
        }
        match &change.new_val {
            Some(status) => if status.addresses.len() > 0 {
                Applied::Upserted
            } else {
                Applied::Skipped
            },
            None => match &change.old_val {
                Some(_) => Applied::Removed,
                None => Applied::Skipped,
            },
        }
    }

    /// Applies an item of the change feed to the cluster of the connection.
    pub fn apply(&self, registry: &mut Registry, item: &FeedItem, outcomes: &Vec<Option<u128>>) -> (r:
        Applied)
        ensures
            final(registry).wf(),
            final(registry)@ == item_effect(old(registry)@, self.0, *item, outcomes@),
            r == item_kind(old(registry)@, self.0, *item),
    {
        let change = match item {
            FeedItem::Expected(change) => change,
            _ => {
                proof {
                    use_type_invariant(&*registry);
                }
                return Applied::Skipped;
            },
        };
        let mut map = registry.take();
        let ghost before = registry_entries(map);
        let mut applied = Applied::Skipped;
        let mut done = false;
        match registry_map_get_mut(&mut map, self.0) {
            Some(registration) => {
                match &mut registration.config {
                    Some(config) => {
                        applied = config.cluster.apply_change(change, outcomes);
                        done = true;
                    },
                    None => {},
                }
            },
            None => {},
        }
        proof {
            if done {
                lemma_position(before, self.0, position(before, self.0));
                let was = registration_of(before, self.0);
                let cluster = change_effect(was.config.unwrap().cluster, *change, outcomes@);
                let value = RegistrationView {
                    config: Some(ConfigView { cluster, ..was.config.unwrap() }),
                    ..was
                };
                lemma_put_wf(before, self.0, value);
                assert(registry_entries(map) =~= put(before, self.0, value));
            } else {
                assert(registry_entries(map) =~= before);
            }
        }
        registry.map = map;
        applied
    }
}

} // verus!
