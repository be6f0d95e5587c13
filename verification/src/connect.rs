//! Setting up a connection: the options are read, the seed hosts resolved and
//! probed, the session pool built and the maintenance of the cluster begun.
//! What touches the network is done by the caller; every decision is made
//! here.

use crate::cluster::probed_cluster;
use crate::cluster::server_views;
use crate::cluster::values;
use crate::config::ConfigView;
use crate::config::Connection;
use crate::config::RegistrationView;
use crate::entries::count_key;
use crate::entries::has_key;
use crate::entries::lemma_count_distinct;
use crate::entries::lemma_position;
use crate::entries::lemma_put;
use crate::entries::lemma_swap_removed;
use crate::entries::swap_removed;
use crate::entries::value_of;
use crate::error::Error;
use crate::error::Registered;
use crate::opts::names;
use crate::opts::parse_options;
use crate::opts::settings_of;
use crate::opts::Opts;
use crate::opts::Parsed;
use crate::opts::Settings;
use crate::registry::first_unresolved;
use crate::registry::registration_of;
use crate::registry::registry_wf;
use crate::registry::seed_views;
use crate::registry::seeded;
use crate::registry::seeded_config;
use crate::registry::with_cluster;
use crate::registry::with_config;
use crate::registry::with_pool;
use crate::registry::Registry;
use crate::registry::Seed;
use crate::run::Arg;
use crate::run::Client;
use crate::server::copy_addresses;
use crate::server::Address;
use crate::server::Server;
use crate::server::ServerView;
use crate::term::option_error;
use crate::term::Term;
use crate::topology::Maintainer;
use crate::topology::MaintainerState;
use uuid::Uuid;
use vstd::prelude::*;

verus! {

/// How the session pool of a connection is to be built.
#[derive(Clone, Copy, Debug, PartialEq, Eq, Structural)]
pub struct PoolSettings {
    /// The most sessions that the pool holds.
    pub pool_size: u32,
    /// Seconds after which an idle session is closed.
    pub idle_timeout: Option<u64>,
    /// Seconds after which a session is closed at the latest.
    pub max_lifetime: Option<u64>,
    /// The fewest idle sessions that the pool keeps.
    pub min_idle: Option<u32>,
    /// Seconds that a caller waits for a session.
    pub connection_timeout: u64,
}

/// The settings of every session pool.
pub open spec fn default_pool() -> PoolSettings {
    PoolSettings {
        pool_size: 144,
        idle_timeout: Some(120),
        max_lifetime: Some(86400),
        min_idle: Some(5),
        connection_timeout: 90,
    }
}

/// The settings of every session pool.
pub fn pool_settings() -> (r: PoolSettings)
    ensures
        r == default_pool(),
{
    PoolSettings {
        pool_size: 144,
        idle_timeout: Some(120),
        max_lifetime: Some(86400),
        min_idle: Some(5),
        connection_timeout: 90,
    }
}

/// `Uuid::new_v4` of the `uuid` crate, as the number that `Uuid::as_u128`
/// gives: a random identifier, of which only the version, 4, and the variant
/// are fixed.
#[verifier::external_body]
fn fresh_handle() -> (r: u128)
    ensures
        r & 0xF000_C000_0000_0000_0000 == 0x4000_8000_0000_0000_0000,
{
    Uuid::new_v4().as_u128()
}

/// What to do next for a seed host.
#[derive(Debug)]
pub enum Lookup {
    /// Resolve this text.
    Try(String),
    /// The host has these addresses.
    Found(Vec<Address>),
    /// The host cannot be resolved.
    Failed,
}

/// What `Lookup` holds, as mathematical values.
pub enum LookupView {
    Try(Seq<char>),
    Found(Seq<Address>),
    Failed,
}

impl View for Lookup {
    type V = LookupView;

    open spec fn view(&self) -> LookupView {
        match self {
            Lookup::Try(text) => LookupView::Try(text@),
            Lookup::Found(addresses) => LookupView::Found(addresses@),
            Lookup::Failed => LookupView::Failed,
        }
    }
}

/// The text of a host with the default port behind it.
pub open spec fn with_default_port(host: Seq<char>) -> Seq<char> {
    host + ":28015"@
}

/// What a resolution came to: its addresses if it found any.
pub open spec fn settled(attempt: Option<Vec<Address>>) -> LookupView {
    match attempt {
        Some(addresses) => if addresses@.len() > 0 {
            LookupView::Found(addresses@)
        } else {
            LookupView::Failed
        },
        None => LookupView::Failed,
    }
}

/// The resolution of a seed host, after the attempts made so far, `None` for
/// one that failed: the host is tried as it is; if that fails, it is tried
/// once more with the default port behind it; what the attempt that did not
/// fail found is the answer, and a host without address cannot be resolved.
pub open spec fn lookup_of(host: Seq<char>, attempts: Seq<Option<Vec<Address>>>) -> LookupView {
    if attempts.len() == 0 {
        LookupView::Try(host)
    } else if attempts[0] is Some {
        settled(attempts[0])
    } else if attempts.len() == 1 {
        LookupView::Try(with_default_port(host))
    } else {
        settled(attempts[1])
    }
}

/// What to do next for a seed host, after the attempts made so far.
pub fn next_lookup(host: &str, attempts: &Vec<Option<Vec<Address>>>) -> (r: Lookup)
    ensures
        r@ == lookup_of(host@, attempts@),
{
    if attempts.len() == 0 {
        return Lookup::Try(String::from_str(host));
    }
    let last = match &attempts[0] {
        Some(_) => &attempts[0],
        None => {
            if attempts.len() == 1 {
                let mut text = String::from_str(host);
                text.append(":28015");
                return Lookup::Try(text);
            }
            &attempts[1]
        },
    };
    match last {
        Some(addresses) => {
            if addresses.len() > 0 {
                Lookup::Found(copy_addresses(addresses))
            } else {
                Lookup::Failed
            }
        },
        None => Lookup::Failed,
    }
}

/// How far the setting up of a connection has come.
#[derive(Clone, Copy, Debug, PartialEq, Eq, Structural)]
pub enum ConnectStage {
    /// The seed hosts are being resolved.
    Resolving,
    /// The servers are being probed.
    Probing,
    /// The session pool is being built.
    Pooling,
    /// The maintenance runs, and has not yet added a server.
    Maintaining,
    Connected,
    Failed,
}

/// A connection that is being set up.
#[derive(Debug)]
pub struct Connecting {
    pub conn: Connection,
    pub stage: ConnectStage,
    pub opts: Opts,
    pub hosts: Vec<String>,
    pub remote: u64,
}

/// What the caller found out for a connection that is being set up.
#[derive(Debug)]
pub enum ConnectEvent {
    /// The addresses of each seed host, in the order of the hosts; `None` for
    /// a host that could not be resolved.
    Resolved(Vec<Option<Vec<Address>>>),
    /// What the probes of each server found, in the order of the servers.
    Probed(Vec<Vec<Option<u128>>>),
    /// The session pool, by the number under which the caller keeps it, or
    /// why it could not be built.
    Pooled(Result<u64, String>),
    /// The maintenance has added a server.
    Ready,
    /// The maintenance has ended, or nothing is left to wait for.
    Abandoned,
}

/// What the caller is to do next for a connection that is being set up.
#[derive(Debug)]
pub enum ConnectAction {
    /// Resolve these hosts.
    Resolve(Vec<String>),
    /// Probe these servers.
    Probe(Vec<Server>),
    /// Build the session pool.
    BuildPool(PoolSettings),
    /// Run the maintenance, and wait until it has added a server.
    Maintain(Maintainer),
    /// The connection stands.
    Done(Connection),
    /// The connection cannot be set up.
    Fail(Error),
    /// Nothing changed: the event does not belong to the stage, or the
    /// maintenance has no server yet. Wait for the next event.
    Wait,
}

/// Why `connect` fails at once: the error of the query or of its arguments, if
/// there is one; else the missing runtime; else the option whose value has not
/// the type that the option takes.
pub open spec fn connect_error(client: Client, args: Arg, error: Error) -> bool {
    match client.term {
        Err(prior) => error == prior,
        Ok(_) => match args.term {
            Err(prior) => error == prior,
            Ok(term) => if args.remote is None {
                error == Error::RuntimeRequired
            } else {
                settings_of(term) matches Parsed::Failed { key, expected } && option_error(
                    error,
                    key,
                    expected,
                )
            },
        },
    }
}

/// What `connect` begins with where it does not fail: the options and seed
/// hosts that the arguments ask for, the runtime, and the seed hosts to be
/// resolved.
pub open spec fn connect_begun(client: Client, args: Arg, begun: Connecting) -> bool {
    &&& client.term is Ok
    &&& args.term is Ok
    &&& args.remote == Some(begun.remote)
    &&& settings_of(args.term->Ok_0) == Parsed::Done(
        Settings { opts: begun.opts@, hosts: names(begun.hosts@) },
    )
    &&& begun.hosts@.len() > 0
    &&& begun.stage == ConnectStage::Resolving
}

/// The seed hosts with what their resolution found: no address for a host
/// that could not be resolved or was not asked for.
pub open spec fn paired(hosts: Seq<Seq<char>>, found: Seq<Option<Vec<Address>>>) -> Seq<
    (Seq<char>, Seq<Address>),
> {
    Seq::new(
        hosts.len(),
        |i: int|
            (
                hosts[i],
                if i < found.len() && found[i] is Some {
                    found[i]->Some_0@
                } else {
                    Seq::empty()
                },
            ),
    )
}

/// Begins a connection under a new handle: a random identifier, or, should
/// the registry hold that one already, the lowest number that it does not
/// hold.
pub fn connect(registry: &Registry, client: &Client, args: Arg) -> (r: Result<Connecting, Error>)
    ensures
        match r {
            Ok(begun) => connect_begun(*client, args, begun) && !has_key(registry@, begun.conn.0),
            Err(error) => connect_error(*client, args, error),
        },
{
    let conn = registry.free_handle(Connection(fresh_handle()));
    connect_as(conn, client, args)
}

/// Begins a connection under the handle given.
pub fn connect_as(conn: Connection, client: &Client, args: Arg) -> (r: Result<Connecting, Error>)
    ensures
        match r {
            Ok(begun) => begun.conn == conn && connect_begun(*client, args, begun),
            Err(error) => connect_error(*client, args, error),
        },
{
    match &client.term {
        Err(error) => {
            return Err(error.clone());
        },
        Ok(_) => {},
    }
    let term = match args.term {
        Ok(term) => term,
        Err(error) => {
            return Err(error);
        },
    };
    let remote = match args.remote {
        Some(remote) => remote,
        None => {
            return Err(Error::RuntimeRequired);
        },
    };
    match parse_options(term) {
        Ok(options) => {
            proof {
                lemma_hosts_named(term);
            }
            Ok(
                Connecting {
                    conn,
                    stage: ConnectStage::Resolving,
                    opts: options.opts,
                    hosts: options.hosts,
                    remote,
                },
            )
        },
        Err(error) => Err(error),
    }
}

/// The settings of a term name at least one seed host.
pub proof fn lemma_hosts_named(term: Term)
    ensures
        settings_of(term) matches Parsed::Done(settings) ==> settings.hosts.len() > 0,
{
}

impl Connecting {
    /// What the caller is to do first: resolve the seed hosts.
    pub fn begin(&self) -> (r: ConnectAction)
        ensures
            r matches ConnectAction::Resolve(hosts) && names(hosts@) == names(self.hosts@),
    {
        ConnectAction::Resolve(copy_names(&self.hosts))
    }

    /// Takes what the caller found out and says what to do next.
    ///
    /// The resolved seed hosts make the cluster, which is installed with the
    /// options; a host without address fails the connection. The probes give
    /// the servers their latencies. The pool is put beside the configuration,
    /// and the maintenance begins with an empty cluster. Once the maintenance
    /// has added a server, the connection stands, with its configuration and
    /// its pool in the registry under its handle and with a server in its
    /// cluster; while the cluster is empty, the caller is to wait on. A
    /// connection that fails leaves nothing in the registry. Where the
    /// maintenance has ended, a connection that does not stand yet fails. Any
    /// other event that does not belong to the stage changes nothing.
    pub fn step(&mut self, registry: &mut Registry, event: ConnectEvent) -> (r: ConnectAction)
        ensures
            final(registry).wf(),
            final(self).conn == old(self).conn,
            final(self).opts == old(self).opts,
            final(self).hosts == old(self).hosts,
            final(self).remote == old(self).remote,
            match (old(self).stage, event) {
                (ConnectStage::Resolving, ConnectEvent::Resolved(found)) => {
                    let seeds = paired(names(old(self).hosts@), found@);
                    match first_unresolved(seeds, 0) {
                        Some(at) => {
                            &&& final(self).stage == ConnectStage::Failed
                            &&& r matches ConnectAction::Fail(Error::Resolve { host }) && host@
                                == seeds[at].0
                            &&& final(registry)@ == swap_removed(old(registry)@, old(self).conn.0)
                        },
                        None => {
                            &&& final(self).stage == ConnectStage::Probing
                            &&& final(registry)@ == with_config(
                                old(registry)@,
                                old(self).conn.0,
                                seeded_config(seeds, old(self).opts@, old(self).remote),
                            )
                            &&& r matches ConnectAction::Probe(servers) && server_views(servers@)
                                == values(seeded(seeds, seeds.len() as int))
                        },
                    }
                },
                (ConnectStage::Probing, ConnectEvent::Probed(runs)) => match old(registry).config_of(
                    old(self).conn,
                ) {
                    Some(config) => {
                        &&& final(self).stage == ConnectStage::Pooling
                        &&& final(registry)@ == with_cluster(
                            old(registry)@,
                            old(self).conn.0,
                            probed_cluster(config.cluster, runs@, config.cluster.len() as int),
                        )
                        &&& r matches ConnectAction::BuildPool(settings) && settings
                            == default_pool()
                    },
                    None => {
                        &&& final(self).stage == ConnectStage::Failed
                        &&& r matches ConnectAction::Fail(Error::NotConfigured)
                        &&& final(registry)@ == swap_removed(old(registry)@, old(self).conn.0)
                    },
                },
                (ConnectStage::Pooling, ConnectEvent::Pooled(Ok(pool))) => {
                    &&& final(self).stage == ConnectStage::Maintaining
                    &&& final(registry)@ == with_cluster(
                        with_pool(old(registry)@, old(self).conn.0, pool),
                        old(self).conn.0,
                        Seq::<(Seq<char>, ServerView)>::empty(),
                    )
                    &&& r matches ConnectAction::Maintain(maintainer) && maintainer == (Maintainer {
                        conn: old(self).conn,
                        state: MaintainerState::Subscribing,
                        ready: false,
                    })
                },
                (ConnectStage::Pooling, ConnectEvent::Pooled(Err(reason))) => {
                    &&& final(self).stage == ConnectStage::Failed
                    &&& r matches ConnectAction::Fail(Error::Pool { reason: why }) && why == reason
                    &&& final(registry)@ == swap_removed(old(registry)@, old(self).conn.0)
                },
                (ConnectStage::Maintaining, ConnectEvent::Ready) => {
                    if old(registry).pool_of(old(self).conn) is None {
                        &&& final(self).stage == ConnectStage::Failed
                        &&& r matches ConnectAction::Fail(
                            Error::NotRegistered { part: Registered::Pool },
                        )
                        &&& final(registry)@ == swap_removed(old(registry)@, old(self).conn.0)
                    } else if old(registry).config_of(old(self).conn) is None {
                        &&& final(self).stage == ConnectStage::Failed
                        &&& r matches ConnectAction::Fail(
                            Error::NotRegistered { part: Registered::Config },
                        )
                        &&& final(registry)@ == swap_removed(old(registry)@, old(self).conn.0)
                    } else if old(registry).config_of(old(self).conn)->Some_0.cluster.len() == 0 {
                        &&& final(self).stage == ConnectStage::Maintaining
                        &&& r is Wait
                        &&& final(registry)@ == old(registry)@
                    } else {
                        &&& final(self).stage == ConnectStage::Connected
                        &&& r matches ConnectAction::Done(conn) && conn == old(self).conn
                        &&& final(registry)@ == old(registry)@
                    }
                },
                (stage, ConnectEvent::Abandoned) => {
                    if stage == ConnectStage::Connected || stage == ConnectStage::Failed {
                        &&& final(self).stage == stage
                        &&& r is Wait
                        &&& final(registry)@ == old(registry)@
                    } else {
                        &&& final(self).stage == ConnectStage::Failed
                        &&& r matches ConnectAction::Fail(Error::Unmaintained)
                        &&& final(registry)@ == swap_removed(old(registry)@, old(self).conn.0)
                    }
                },
                _ => {
                    &&& final(self).stage == old(self).stage
                    &&& r is Wait
                    &&& final(registry)@ == old(registry)@
                },
            },
            r matches ConnectAction::Done(conn) ==> final(registry).config_of(conn) matches Some(
                config,
            ) && config.cluster.len() > 0 && final(registry).pool_of(conn) is Some && count_key(
                final(registry)@,
                conn.0,
            ) == 1,
            r is Fail ==> value_of(final(registry)@, old(self).conn.0) is None,
            r is Fail && !has_key(old(registry)@, old(self).conn.0) ==> final(registry)@ == old(
                registry,
            )@,
    {
        proof {
            use_type_invariant(&*registry);
        }
        let conn = self.conn;
        match (self.stage, event) {
            (ConnectStage::Resolving, ConnectEvent::Resolved(found)) => {
                let seeds = pair_up(&self.hosts, &found);
                match conn.set_config(registry, self.opts.clone(), seeds, self.remote) {
                    Ok(()) => {
                        self.stage = ConnectStage::Probing;
                        match conn.config(registry) {
                            Some(config) => ConnectAction::Probe(config.cluster.servers()),
                            None => ConnectAction::Probe(Vec::new()),
                        }
                    },
                    Err(error) => self.fail(registry, error),
                }
            },
            (ConnectStage::Probing, ConnectEvent::Probed(runs)) => {
                match conn.set_latency(registry, &runs) {
                    Ok(()) => {
                        self.stage = ConnectStage::Pooling;
                        ConnectAction::BuildPool(pool_settings())
                    },
                    Err(error) => self.fail(registry, error),
                }
            },
            (ConnectStage::Pooling, ConnectEvent::Pooled(Ok(pool))) => {
                conn.set_pool(registry, pool);
                let maintainer = conn.maintain(registry);
                self.stage = ConnectStage::Maintaining;
                ConnectAction::Maintain(maintainer)
            },
            (ConnectStage::Pooling, ConnectEvent::Pooled(Err(reason))) => {
                self.fail(registry, Error::Pool { reason })
            },
            (ConnectStage::Maintaining, ConnectEvent::Ready) => {
                if conn.pool(registry).is_none() {
                    return self.fail(registry, Error::NotRegistered { part: Registered::Pool });
                }
                match conn.config(registry) {
                    None => self.fail(registry, Error::NotRegistered { part: Registered::Config }),
                    Some(config) => {
                        if config.cluster.len() == 0 {
                            ConnectAction::Wait
                        } else {
                            proof {
                                lemma_count_distinct(registry@, conn.0);
                            }
                            self.stage = ConnectStage::Connected;
                            ConnectAction::Done(conn)
                        }
                    },
                }
            },
            (ConnectStage::Connected, _) => ConnectAction::Wait,
            (ConnectStage::Failed, _) => ConnectAction::Wait,
            (_, ConnectEvent::Abandoned) => self.fail(registry, Error::Unmaintained),
            _ => ConnectAction::Wait,
        }
    }

    /// Gives the connection up: nothing of it stays in the registry.
    fn fail(&mut self, registry: &mut Registry, error: Error) -> (r: ConnectAction)
        ensures
            final(registry).wf(),
            final(registry)@ == swap_removed(old(registry)@, old(self).conn.0),
            value_of(final(registry)@, old(self).conn.0) is None,
            !has_key(old(registry)@, old(self).conn.0) ==> final(registry)@ == old(registry)@,
            final(self).stage == ConnectStage::Failed,
            final(self).conn == old(self).conn,
            final(self).opts == old(self).opts,
            final(self).hosts == old(self).hosts,
            final(self).remote == old(self).remote,
            r matches ConnectAction::Fail(failure) && failure == error,
    {
        proof {
            use_type_invariant(&*registry);
            lemma_swap_removed(registry@, self.conn.0);
        }
        registry.remove(self.conn);
        self.stage = ConnectStage::Failed;
        ConnectAction::Fail(error)
    }
}

/// What the steps of a connection that meets no failure leave in the
/// registry: under its handle one entry, with the configuration of the seeds,
/// its cluster emptied for the maintenance, and with the pool; every other
/// handle is as it was.
pub proof fn lemma_connect_installs(
    entries: Seq<(u128, RegistrationView)>,
    id: u128,
    config: ConfigView,
    runs: Seq<Vec<Option<u128>>>,
    pool: u64,
)
    requires
        registry_wf(entries),
    ensures
        ({
            let installed = with_config(entries, id, config);
            let probed = with_cluster(
                installed,
                id,
                probed_cluster(config.cluster, runs, config.cluster.len() as int),
            );
            let pooled = with_pool(probed, id, pool);
            let maintained = with_cluster(pooled, id, Seq::<(Seq<char>, ServerView)>::empty());
            &&& registration_of(maintained, id) == (RegistrationView {
                config: Some(
                    ConfigView { cluster: Seq::<(Seq<char>, ServerView)>::empty(), ..config },
                ),
                pool: Some(pool),
            })
            &&& count_key(maintained, id) == 1
            &&& forall|other: u128|
                other != id ==> #[trigger] registration_of(maintained, other) == registration_of(
                    entries,
                    other,
                )
        }),
{
    let installed = with_config(entries, id, config);
    lemma_put(
        entries,
        id,
        RegistrationView { config: Some(config), ..registration_of(entries, id) },
    );
    let cluster = probed_cluster(config.cluster, runs, config.cluster.len() as int);
    let probed = with_cluster(installed, id, cluster);
    lemma_put(
        installed,
        id,
        RegistrationView {
            config: Some(ConfigView { cluster, ..config }),
            ..registration_of(installed, id)
        },
    );
    let pooled = with_pool(probed, id, pool);
    lemma_put(probed, id, RegistrationView { pool: Some(pool), ..registration_of(probed, id) });
    let maintained = with_cluster(pooled, id, Seq::<(Seq<char>, ServerView)>::empty());
    lemma_put(
        pooled,
        id,
        RegistrationView {
            config: Some(
                ConfigView { cluster: Seq::<(Seq<char>, ServerView)>::empty(), ..config },
            ),
            ..registration_of(pooled, id)
        },
    );
    lemma_count_distinct(maintained, id);
}

/// Under a handle that the registry did not hold, a connection that meets no
/// failure adds one entry, behind the others, and changes no other.
pub proof fn lemma_connect_adds_one(
    entries: Seq<(u128, RegistrationView)>,
    id: u128,
    config: ConfigView,
    runs: Seq<Vec<Option<u128>>>,
    pool: u64,
)
    requires
        registry_wf(entries),
        !has_key(entries, id),
    ensures
        ({
            let installed = with_config(entries, id, config);
            let probed = with_cluster(
                installed,
                id,
                probed_cluster(config.cluster, runs, config.cluster.len() as int),
            );
            let pooled = with_pool(probed, id, pool);
            let maintained = with_cluster(pooled, id, Seq::<(Seq<char>, ServerView)>::empty());
            maintained == entries.push(
                (
                    id,
                    RegistrationView {
                        config: Some(
                            ConfigView {
                                cluster: Seq::<(Seq<char>, ServerView)>::empty(),
                                ..config
                            },
                        ),
                        pool: Some(pool),
                    },
                ),
            )
        }),
{
    let at = entries.len() as int;
    let installed = with_config(entries, id, config);
    lemma_put(
        entries,
        id,
        RegistrationView { config: Some(config), ..registration_of(entries, id) },
    );
    lemma_position(installed, id, at);
    let cluster = probed_cluster(config.cluster, runs, config.cluster.len() as int);
    let probed = with_cluster(installed, id, cluster);
    lemma_put(
        installed,
        id,
        RegistrationView {
            config: Some(ConfigView { cluster, ..config }),
            ..registration_of(installed, id)
        },
    );
    lemma_position(probed, id, at);
    let pooled = with_pool(probed, id, pool);
    lemma_put(probed, id, RegistrationView { pool: Some(pool), ..registration_of(probed, id) });
    lemma_position(pooled, id, at);
    let maintained = with_cluster(pooled, id, Seq::<(Seq<char>, ServerView)>::empty());
    assert(maintained =~= entries.push(
        (
            id,
            RegistrationView {
                config: Some(
                    ConfigView { cluster: Seq::<(Seq<char>, ServerView)>::empty(), ..config },
                ),
                pool: Some(pool),
            },
        ),
    ));
}

/// Under a handle that the registry did not hold, a connection that fails
/// leaves the registry as it was, whether it fails before anything is
/// installed, after the configuration is installed, after the probes, or after
/// the pool is put in.
pub proof fn lemma_failed_connect_restores(
    entries: Seq<(u128, RegistrationView)>,
    id: u128,
    config: ConfigView,
    runs: Seq<Vec<Option<u128>>>,
    pool: u64,
)
    requires
        registry_wf(entries),
        !has_key(entries, id),
    ensures
        ({
            let installed = with_config(entries, id, config);
            let probed = with_cluster(
                installed,
                id,
                probed_cluster(config.cluster, runs, config.cluster.len() as int),
            );
            let pooled = with_pool(probed, id, pool);
            let maintained = with_cluster(pooled, id, Seq::<(Seq<char>, ServerView)>::empty());
            &&& swap_removed(entries, id) == entries
            &&& swap_removed(installed, id) == entries
            &&& swap_removed(probed, id) == entries
            &&& swap_removed(pooled, id) == entries
            &&& swap_removed(maintained, id) == entries
        }),
{
    let at = entries.len() as int;
    let installed = with_config(entries, id, config);
    lemma_put(
        entries,
        id,
        RegistrationView { config: Some(config), ..registration_of(entries, id) },
    );
    lemma_position(installed, id, at);
    let cluster = probed_cluster(config.cluster, runs, config.cluster.len() as int);
    let probed = with_cluster(installed, id, cluster);
    lemma_put(
        installed,
        id,
        RegistrationView {
            config: Some(ConfigView { cluster, ..config }),
            ..registration_of(installed, id)
        },
    );
    lemma_position(probed, id, at);
    let pooled = with_pool(probed, id, pool);
    lemma_put(probed, id, RegistrationView { pool: Some(pool), ..registration_of(probed, id) });
    lemma_position(pooled, id, at);
    let maintained = with_cluster(pooled, id, Seq::<(Seq<char>, ServerView)>::empty());
    lemma_put(
        pooled,
        id,
        RegistrationView {
            config: Some(
                ConfigView { cluster: Seq::<(Seq<char>, ServerView)>::empty(), ..config },
            ),
            ..registration_of(pooled, id)
        },
    );
    lemma_position(maintained, id, at);
    assert(swap_removed(installed, id) =~= entries);
    assert(swap_removed(probed, id) =~= entries);
    assert(swap_removed(pooled, id) =~= entries);
    assert(swap_removed(maintained, id) =~= entries);
}

/// A copy of some strings.
fn copy_names(hosts: &Vec<String>) -> (r: Vec<String>)
    ensures
        names(r@) == names(hosts@),
{
    let mut copy: Vec<String> = Vec::new();
    let mut i: usize = 0;
    while i < hosts.len()
        invariant
            i <= hosts.len(),
            copy@.len() == i,
            forall|j: int| 0 <= j < i ==> (#[trigger] copy@[j])@ == hosts@[j]@,
        decreases hosts.len() - i,
    {
        copy.push(hosts[i].clone());
        i += 1;
    }
    assert(names(copy@) =~= names(hosts@));
    copy
}

/// The seed hosts with what their resolution found.
fn pair_up(hosts: &Vec<String>, found: &Vec<Option<Vec<Address>>>) -> (r: Vec<Seed>)
    ensures
        seed_views(r@) == paired(names(hosts@), found@),
{
    let mut seeds: Vec<Seed> = Vec::new();
    let mut i: usize = 0;
    while i < hosts.len()
        invariant
            i <= hosts.len(),
            seeds@.len() == i,
            forall|j: int| 0 <= j < i ==> (#[trigger] seeds@[j])@ == paired(names(hosts@), found@)[j],
        decreases hosts.len() - i,
    {
        let addresses = if i < found.len() {
            match &found[i] {
                Some(addresses) => copy_addresses(addresses),
                None => Vec::new(),
            }
        } else {
            Vec::new()
        };
        seeds.push(Seed { host: hosts[i].clone(), addresses });
        i += 1;
    }
    assert(seed_views(seeds@) =~= paired(names(hosts@), found@));
    seeds
}

} // verus!
