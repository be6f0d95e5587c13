//! Keeping the cluster of a connection in step with the membership that the
//! cluster itself reports: the records of the change feed, what each does to
//! the topology store, and the states of the task that reads the feed.

use crate::cluster::well_formed;
use crate::cluster::Cluster;
use crate::config::Connection;
use crate::entries::count_key;
use crate::entries::has_key;
use crate::entries::lemma_count_distinct;
use crate::entries::lemma_put;
use crate::entries::lemma_swap_removed;
use crate::entries::put;
use crate::entries::swap_removed;
use crate::entries::value_of;
use crate::registry::item_effect;
use crate::registry::item_kind;
use crate::registry::with_cluster;
use crate::registry::Registry;
use crate::server::Address;
use crate::server::IpAddress;
use crate::server::Server;
use crate::server::ServerView;
use crate::server::UNREACHABLE;
use vstd::prelude::*;

verus! {

/// The pause between the end of one subscription and the next, in
/// milliseconds.
pub const BACKOFF_MILLIS: u64 = 500;

/// What the cluster reports of one of its servers.
#[derive(Debug)]
pub struct ServerStatus {
    pub name: String,
    /// The hosts under which the server can be reached.
    pub addresses: Vec<IpAddress>,
    /// The port on which the server takes queries.
    pub port: u16,
}

/// A record of the change feed: the state of a server after the change and
/// before it, as far as there is one.
#[derive(Debug)]
pub struct Change {
    pub new_val: Option<ServerStatus>,
    pub old_val: Option<ServerStatus>,
}

/// What the change feed hands over.
#[derive(Debug)]
pub enum FeedItem {
    /// A record of the expected shape.
    Expected(Change),
    /// A response of another shape.
    Unexpected,
    /// An error of the transport.
    Failed,
}

/// What a record did to the topology store.
#[derive(Clone, Copy, Debug, PartialEq, Eq, Structural)]
pub enum Applied {
    /// A server was added or replaced.
    Upserted,
    /// A name was taken out, or was not there.
    Removed,
    /// The record was passed over.
    Skipped,
}

impl ServerStatus {
    /// The socket addresses of the server: each host with the port.
    pub open spec fn sockets(&self) -> Seq<Address> {
        Seq::new(self.addresses@.len(), |i: int| Address { ip: self.addresses@[i], port: self.port })
    }

    /// The server as reported, before any probe.
    pub open spec fn reported(&self) -> ServerView {
        ServerView { name: self.name@, addresses: self.sockets(), latency: UNREACHABLE }
    }

    /// The server as reported and then probed.
    pub open spec fn probed(&self, outcomes: Seq<Option<u128>>) -> ServerView {
        ServerView { latency: self.reported().probed(outcomes), ..self.reported() }
    }

    /// The server that the status describes, not yet probed.
    pub fn to_server(&self) -> (r: Server)
        ensures
            r@ == self.reported(),
    {
        let mut sockets: Vec<Address> = Vec::new();
        let mut i: usize = 0;
        while i < self.addresses.len()
            invariant
                i <= self.addresses.len(),
                sockets@ == self.sockets().take(i as int),
            decreases self.addresses.len() - i,
        {
            sockets.push(Address { ip: self.addresses[i], port: self.port });
            assert(sockets@ =~= self.sockets().take(i + 1));
            i += 1;
        }
        assert(sockets@ =~= self.sockets());
        Server::new(self.name.as_str(), sockets)
    }
}

/// What a record does: with a new state that has an address, the server is
/// added or replaced; with an old state only, its name is taken out; any other
/// record is passed over.
pub open spec fn change_kind(change: Change) -> Applied {
    match change.new_val {
        Some(status) => if status.addresses@.len() > 0 {
            Applied::Upserted
        } else {
            Applied::Skipped
        },
        None => match change.old_val {
            Some(_) => Applied::Removed,
            None => Applied::Skipped,
        },
    }
}

/// The topology store after a record: `outcomes` is what the probes of the new
/// server's addresses found.
pub open spec fn change_effect(
    entries: Seq<(Seq<char>, ServerView)>,
    change: Change,
    outcomes: Seq<Option<u128>>,
) -> Seq<(Seq<char>, ServerView)> {
    match change_kind(change) {
        Applied::Upserted => put(
            entries,
            change.new_val.unwrap().name@,
            change.new_val.unwrap().probed(outcomes),
        ),
        Applied::Removed => swap_removed(entries, change.old_val.unwrap().name@),
        Applied::Skipped => entries,
    }
}

impl Cluster {
    /// Applies a record of the change feed; `outcomes` is what the probes of
    /// the new server's addresses found, one outcome for each address tried.
    pub fn apply_change(&mut self, change: &Change, outcomes: &Vec<Option<u128>>) -> (r: Applied)
        ensures
            final(self).wf(),
            final(self)@ == change_effect(old(self)@, *change, outcomes@),
            r == change_kind(*change),
    {
        proof {
            use_type_invariant(&*self);
        }
        match &change.new_val {
            Some(status) => {
                if status.addresses.len() > 0 {
                    let mut server = status.to_server();
                    server.set_latency(outcomes);
                    self.insert(server);
                    Applied::Upserted
                } else {
                    Applied::Skipped
                }
            },
            None => match &change.old_val {
                Some(status) => {
                    self.remove(status.name.as_str());
                    Applied::Removed
                },
                None => Applied::Skipped,
            },
        }
    }
}

/// Where the task that reads the change feed stands.
#[derive(Clone, Copy, Debug, PartialEq, Eq, Structural)]
pub enum MaintainerState {
    /// It asks the cluster for the feed.
    Subscribing,
    /// It reads the feed and applies its items.
    Applying,
    /// It waits before it asks again.
    BackoffWait,
}

/// What happened to the task that reads the change feed.
#[derive(Debug)]
pub enum FeedEvent {
    /// The feed was opened.
    Subscribed,
    /// The feed could not be opened.
    SubscribeFailed,
    /// The feed handed over an item.
    Item(FeedItem),
    /// The probes that the task asked for are done: the item that they were
    /// for, and what they found, one outcome for each address tried.
    Probed(FeedItem, Vec<Option<u128>>),
    /// The feed ended.
    Ended,
    /// The pause is over.
    WaitElapsed,
}

/// What the task that reads the change feed does next.
#[derive(Debug)]
pub enum MaintainerAction {
    /// Ask the cluster for the feed.
    Subscribe,
    /// Take the next item of the feed.
    Poll,
    /// Probe the addresses of the server, and hand the item back with what
    /// the probes found.
    Probe { server: Server, item: FeedItem },
    /// Wait for so many milliseconds.
    Wait { millis: u64 },
}

/// The state after an event: the feed is read once it is open, its end or a
/// failure to open it leads to the pause, and the pause to the next attempt.
/// An event that does not belong to the state leaves the state.
pub open spec fn next_state(state: MaintainerState, event: FeedEvent) -> MaintainerState {
    match state {
        MaintainerState::Subscribing => match event {
            FeedEvent::Subscribed => MaintainerState::Applying,
            FeedEvent::SubscribeFailed => MaintainerState::BackoffWait,
            _ => MaintainerState::Subscribing,
        },
        MaintainerState::Applying => match event {
            FeedEvent::Ended => MaintainerState::BackoffWait,
            _ => MaintainerState::Applying,
        },
        MaintainerState::BackoffWait => match event {
            FeedEvent::WaitElapsed => MaintainerState::Subscribing,
            _ => MaintainerState::BackoffWait,
        },
    }
}

/// What is done in a state, where no server is to be probed first.
pub open spec fn action_in(state: MaintainerState) -> MaintainerAction {
    match state {
        MaintainerState::Subscribing => MaintainerAction::Subscribe,
        MaintainerState::Applying => MaintainerAction::Poll,
        MaintainerState::BackoffWait => MaintainerAction::Wait { millis: BACKOFF_MILLIS },
    }
}

impl FeedItem {
    /// The server that the item reports, before any probe.
    pub open spec fn reported(self) -> Option<ServerView> {
        match self {
            FeedItem::Expected(change) => match change.new_val {
                Some(status) => Some(status.reported()),
                None => None,
            },
            _ => None,
        }
    }

    /// The server that the item reports, where it reports one.
    pub fn server(&self) -> (r: Option<Server>)
        ensures
            match r {
                Some(server) => self.reported() == Some(server@),
                None => self.reported() is None,
            },
    {
        match self {
            FeedItem::Expected(change) => match &change.new_val {
                Some(status) => Some(status.to_server()),
                None => None,
            },
            _ => None,
        }
    }
}

/// The task that keeps the cluster of one connection up to date.
#[derive(Debug)]
pub struct Maintainer {
    pub conn: Connection,
    pub state: MaintainerState,
    /// Whether a server was added since the task began: `connect` returns once
    /// this holds.
    pub ready: bool,
}

/// What one step of the maintainer asks for.
#[derive(Debug)]
pub struct Step {
    pub action: MaintainerAction,
    /// Whether to tell whoever waits for the connection that a server was
    /// added.
    pub notify: bool,
}

impl Connection {
    /// Begins the maintenance of the connection: its cluster is emptied, and
    /// the task starts by asking for the feed.
    pub fn maintain(&self, registry: &mut Registry) -> (r: Maintainer)
        ensures
            final(registry).wf(),
            final(registry)@ == with_cluster(
                old(registry)@,
                self.0,
                Seq::<(Seq<char>, ServerView)>::empty(),
            ),
            r == (Maintainer { conn: *self, state: MaintainerState::Subscribing, ready: false }),
    {
        self.reset_cluster(registry);
        Maintainer { conn: *self, state: MaintainerState::Subscribing, ready: false }
    }
}

impl Maintainer {
    /// What the task does first.
    pub fn start(&self) -> (r: MaintainerAction)
        ensures
            r == action_in(self.state),
    {
        action_of(self.state)
    }

    /// Takes an event and says what to do next.
    ///
    /// While the feed is read, an item that adds or replaces a server is first
    /// handed back for the server to be probed, and is applied to the cluster
    /// when it returns with what the probes found; any other item is applied
    /// at once. No other event touches the registry. No item and no failure
    /// ends the task.
    pub fn step(&mut self, registry: &mut Registry, event: FeedEvent) -> (r: Step)
        ensures
            final(registry).wf(),
            final(self).conn == old(self).conn,
            final(self).state == next_state(old(self).state, event),
            match (old(self).state, event) {
                (MaintainerState::Applying, FeedEvent::Item(item)) => {
                    if item_kind(old(registry)@, old(self).conn.0, item) == Applied::Upserted {
                        &&& final(registry)@ == old(registry)@
                        &&& !r.notify
                        &&& r.action matches MaintainerAction::Probe { server, item: held }
                        &&& held == item
                        &&& item.reported() == Some(server@)
                    } else {
                        &&& final(registry)@ == item_effect(
                            old(registry)@,
                            old(self).conn.0,
                            item,
                            Seq::empty(),
                        )
                        &&& !r.notify
                        &&& r.action == MaintainerAction::Poll
                    }
                },
                (MaintainerState::Applying, FeedEvent::Probed(item, outcomes)) => {
                    &&& final(registry)@ == item_effect(
                        old(registry)@,
                        old(self).conn.0,
                        item,
                        outcomes@,
                    )
                    &&& r.notify == (item_kind(old(registry)@, old(self).conn.0, item)
                        == Applied::Upserted)
                    &&& r.action == MaintainerAction::Poll
                },
                _ => {
                    &&& final(registry)@ == old(registry)@
                    &&& !r.notify
                    &&& r.action == action_in(final(self).state)
                },
            },
            final(self).ready == (old(self).ready || r.notify),
    {
        proof {
            use_type_invariant(&*registry);
        }
        let mut notify = false;
        match self.state {
            MaintainerState::Subscribing => match event {
                FeedEvent::Subscribed => {
                    self.state = MaintainerState::Applying;
                },
                FeedEvent::SubscribeFailed => {
                    self.state = MaintainerState::BackoffWait;
                },
                _ => {},
            },
            MaintainerState::Applying => match event {
                FeedEvent::Item(item) => {
                    if self.conn.kind_of(registry, &item) == Applied::Upserted {
                        match item.server() {
                            Some(server) => {
                                return Step {
                                    action: MaintainerAction::Probe { server, item },
                                    notify: false,
                                };
                            },
                            None => {},
                        }
                    } else {
                        let none: Vec<Option<u128>> = Vec::new();
                        self.conn.apply(registry, &item, &none);
                    }
                },
                FeedEvent::Probed(item, outcomes) => {
                    let applied = self.conn.apply(registry, &item, &outcomes);
                    if applied == Applied::Upserted {
                        notify = true;
                        self.ready = true;
                    }
                },
                FeedEvent::Ended => {
                    self.state = MaintainerState::BackoffWait;
                },
                _ => {},
            },
            MaintainerState::BackoffWait => match event {
                FeedEvent::WaitElapsed => {
                    self.state = MaintainerState::Subscribing;
                },
                _ => {},
            },
        }
        Step { action: action_of(self.state), notify }
    }
}

/// What is done in a state.
fn action_of(state: MaintainerState) -> (r: MaintainerAction)
    ensures
        r == action_in(state),
{
    match state {
        MaintainerState::Subscribing => MaintainerAction::Subscribe,
        MaintainerState::Applying => MaintainerAction::Poll,
        MaintainerState::BackoffWait => MaintainerAction::Wait { millis: BACKOFF_MILLIS },
    }
}

/// Applying the record of an added server twice leaves one entry under its
/// name, with the addresses of the record and the latency that the later
/// probes found; with the same probes the second time changes nothing.
pub proof fn lemma_added_twice(
    entries: Seq<(Seq<char>, ServerView)>,
    change: Change,
    first: Seq<Option<u128>>,
    second: Seq<Option<u128>>,
)
    requires
        well_formed(entries),
        change_kind(change) == Applied::Upserted,
    ensures
        ({
            let name = change.new_val.unwrap().name@;
            let once = change_effect(entries, change, first);
            let twice = change_effect(once, change, second);
            &&& count_key(twice, name) == 1
            &&& value_of(twice, name) == Some(change.new_val.unwrap().probed(second))
            &&& twice.len() == once.len()
            &&& first == second ==> twice == once
        }),
{
    let status = change.new_val.unwrap();
    let name = status.name@;
    let once = change_effect(entries, change, first);
    let twice = change_effect(once, change, second);
    lemma_put(entries, name, status.probed(first));
    lemma_put(once, name, status.probed(second));
    lemma_count_distinct(twice, name);
    if first == second {
        assert(twice =~= once);
    }
}

/// The record of a removed server whose name the store does not hold changes
/// nothing.
pub proof fn lemma_removed_absent(
    entries: Seq<(Seq<char>, ServerView)>,
    change: Change,
    outcomes: Seq<Option<u128>>,
)
    requires
        change_kind(change) == Applied::Removed,
        !has_key(entries, change.old_val.unwrap().name@),
    ensures
        change_effect(entries, change, outcomes) == entries,
{
}

/// A server that was added and then removed is no longer in the store, and
/// every other name is as it was before the two records.
pub proof fn lemma_added_then_removed(
    entries: Seq<(Seq<char>, ServerView)>,
    added: Change,
    removed: Change,
    outcomes: Seq<Option<u128>>,
)
    requires
        well_formed(entries),
        change_kind(added) == Applied::Upserted,
        change_kind(removed) == Applied::Removed,
        removed.old_val.unwrap().name@ == added.new_val.unwrap().name@,
    ensures
        ({
            let name = added.new_val.unwrap().name@;
            let after = change_effect(change_effect(entries, added, outcomes), removed, outcomes);
            &&& !has_key(after, name)
            &&& forall|other: Seq<char>|
                other != name ==> #[trigger] value_of(after, other) == value_of(entries, other)
        }),
{
    let name = added.new_val.unwrap().name@;
    let once = change_effect(entries, added, outcomes);
    lemma_put(entries, name, added.new_val.unwrap().probed(outcomes));
    lemma_swap_removed(once, name);
}

} // verus!
