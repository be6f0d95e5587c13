//! Servers of a cluster, and their order by measured latency.

use std::cmp::Ordering;
use vstd::prelude::*;
use vstd::std_specs::cmp::PartialEqSpec;
use vstd::std_specs::cmp::PartialEqSpecImpl;
use vstd::std_specs::cmp::PartialOrdSpec;
use vstd::std_specs::cmp::PartialOrdSpecImpl;

verus! {

/// Latency of a server that no probe has reached: the longest duration that
/// can be represented, in nanoseconds.
pub const UNREACHABLE: u128 = 18_446_744_073_709_551_615_999_999_999;

/// An IP address, version 4 by its four octets or version 6 by its value.
#[derive(Clone, Copy, Debug, PartialEq, Eq, Structural)]
pub enum IpAddress {
    V4(u8, u8, u8, u8),
    V6(u128),
}

/// A socket address of a server.
#[derive(Clone, Copy, Debug, PartialEq, Eq, Structural)]
pub struct Address {
    pub ip: IpAddress,
    pub port: u16,
}

/// One node of a cluster.
#[derive(Debug)]
pub struct Server {
    pub name: String,
    pub addresses: Vec<Address>,
    /// Nanoseconds that the last successful probe took, `UNREACHABLE` before one.
    pub latency: u128,
}

/// What a `Server` holds, as mathematical values.
pub struct ServerView {
    pub name: Seq<char>,
    pub addresses: Seq<Address>,
    pub latency: u128,
}

impl View for Server {
    type V = ServerView;

    open spec fn view(&self) -> ServerView {
        ServerView { name: self.name@, addresses: self.addresses@, latency: self.latency }
    }
}

/// A copy of some addresses.
pub fn copy_addresses(addresses: &Vec<Address>) -> (r: Vec<Address>)
    ensures
        r@ == addresses@,
{
    let mut copy: Vec<Address> = Vec::new();
    let mut i: usize = 0;
    while i < addresses.len()
        invariant
            i <= addresses.len(),
            copy@ == addresses@.take(i as int),
        decreases addresses.len() - i,
    {
        copy.push(addresses[i]);
        i += 1;
    }
    assert(addresses@.take(i as int) =~= addresses@);
    copy
}

impl Clone for Server {
    fn clone(&self) -> (r: Server)
        ensures
            r@ == self@,
    {
        Server {
            name: self.name.clone(),
            addresses: copy_addresses(&self.addresses),
            latency: self.latency,
        }
    }
}

impl PartialEq for Server {
    fn eq(&self, other: &Server) -> (r: bool) {
        self.latency == other.latency
    }
}

impl PartialEqSpecImpl for Server {
    open spec fn obeys_eq_spec() -> bool {
        true
    }

    open spec fn eq_spec(&self, other: &Server) -> bool {
        self.latency == other.latency
    }
}

impl Eq for Server {

}

impl PartialOrd for Server {
    fn partial_cmp(&self, other: &Server) -> (r: Option<Ordering>) {
        Some(self.cmp(other))
    }
}

impl PartialOrdSpecImpl for Server {
    open spec fn obeys_partial_cmp_spec() -> bool {
        true
    }

    open spec fn partial_cmp_spec(&self, other: &Server) -> Option<Ordering> {
        Some(latency_order(self.latency, other.latency))
    }
}

/// What the first probe that got through measured, among the first `limit`
/// outcomes from `from` on.
pub open spec fn first_success(outcomes: Seq<Option<u128>>, limit: int, from: int) -> Option<u128>
    decreases limit - from,
{
    if from < 0 || from >= limit || from >= outcomes.len() {
        None
    } else if outcomes[from] is Some {
        outcomes[from]
    } else {
        first_success(outcomes, limit, from + 1)
    }
}

/// A measured time as a latency: no more than that of a server that no probe
/// has reached.
pub open spec fn capped(elapsed: u128) -> u128 {
    if elapsed <= UNREACHABLE {
        elapsed
    } else {
        UNREACHABLE
    }
}

impl ServerView {
    /// The latency after a run of probes, one outcome for each address tried in
    /// the order of the addresses: that of the first probe that got through, the
    /// latency before where none did. No measured time counts for more than
    /// `UNREACHABLE`.
    pub open spec fn probed(self, outcomes: Seq<Option<u128>>) -> u128 {
        match first_success(outcomes, self.addresses.len() as int, 0) {
            Some(elapsed) => capped(elapsed),
            None => self.latency,
        }
    }
}

/// How two latencies compare.
pub open spec fn latency_order(a: u128, b: u128) -> Ordering {
    if a < b {
        Ordering::Less
    } else if a == b {
        Ordering::Equal
    } else {
        Ordering::Greater
    }
}

impl Server {
    /// A server that no probe has reached yet.
    pub fn new(host: &str, addresses: Vec<Address>) -> (r: Server)
        ensures
            r@ == (ServerView { name: host@, addresses: addresses@, latency: UNREACHABLE }),
    {
        Server { name: String::from_str(host), addresses, latency: UNREACHABLE }
    }

    /// Records what a run of probes found: `outcomes` holds, for the addresses
    /// in their order, what each probe took where it got through. The first
    /// success gives the latency, which is never above `UNREACHABLE`; without a
    /// success the latency stays.
    pub fn set_latency(&mut self, outcomes: &Vec<Option<u128>>)
        ensures
            final(self)@ == (ServerView { latency: old(self)@.probed(outcomes@), ..old(self)@ }),
            old(self).latency <= UNREACHABLE ==> final(self).latency <= UNREACHABLE,
    {
        let mut i: usize = 0;
        while i < self.addresses.len() && i < outcomes.len()
            invariant
                *self == *old(self),
                first_success(outcomes@, self.addresses@.len() as int, 0) == first_success(
                    outcomes@,
                    self.addresses@.len() as int,
                    i as int,
                ),
            decreases outcomes.len() - i,
        {
            match outcomes[i] {
                Some(elapsed) => {
                    self.latency = if elapsed <= UNREACHABLE {
                        elapsed
                    } else {
                        UNREACHABLE
                    };
                    return ;
                },
                None => {},
            }
            i += 1;
        }
    }

    /// The address that the next probe goes to, after the probes whose
    /// outcomes are given: the next in order while none got through, none
    /// once one did or the addresses are used up.
    pub fn next_probe(&self, outcomes: &Vec<Option<u128>>) -> (r: Option<Address>)
        ensures
            r == if outcomes@.len() < self@.addresses.len() && first_success(
                outcomes@,
                self@.addresses.len() as int,
                0,
            ) is None {
                Some(self@.addresses[outcomes@.len() as int])
            } else {
                None
            },
    {
        let mut i: usize = 0;
        while i < self.addresses.len() && i < outcomes.len()
            invariant
                i <= self.addresses.len(),
                i <= outcomes.len(),
                first_success(outcomes@, self.addresses@.len() as int, 0) == first_success(
                    outcomes@,
                    self.addresses@.len() as int,
                    i as int,
                ),
            decreases outcomes.len() - i,
        {
            if outcomes[i].is_some() {
                return None;
            }
            i += 1;
        }
        if i < self.addresses.len() {
            Some(self.addresses[i])
        } else {
            None
        }
    }

    /// The total order of servers: that of their latencies, whatever their names.
    pub fn cmp(&self, other: &Server) -> (r: Ordering)
        ensures
            r == latency_order(self.latency, other.latency),
    {
        if self.latency < other.latency {
            Ordering::Less
        } else if self.latency == other.latency {
            Ordering::Equal
        } else {
            Ordering::Greater
        }
    }
}

/// Whether each server of a list comes before or beside every later one in
/// the order of servers.
pub open spec fn in_order(servers: Seq<Server>) -> bool {
    forall|i: int, j: int|
        #![trigger servers[i], servers[j]]
        0 <= i < j < servers.len() ==> PartialOrdSpec::partial_cmp_spec(&servers[i], &servers[j])
            != Some(Ordering::Greater)
}

/// Whether the latencies of a list of servers never fall.
pub open spec fn ascending(servers: Seq<Server>) -> bool {
    forall|i: int, j: int|
        #![trigger servers[i], servers[j]]
        0 <= i < j < servers.len() ==> servers[i].latency <= servers[j].latency
}

/// The order of servers is the order of their latencies, whatever their names
/// and addresses: servers with the same latency are equal, and a list of
/// servers is in order exactly if its latencies never fall.
pub proof fn lemma_order_by_latency(a: Server, b: Server, servers: Seq<Server>)
    ensures
        PartialOrdSpec::partial_cmp_spec(&a, &b) == Some(Ordering::Less) <==> a.latency
            < b.latency,
        PartialOrdSpec::partial_cmp_spec(&a, &b) == Some(Ordering::Equal) <==> a.latency
            == b.latency,
        PartialOrdSpec::partial_cmp_spec(&a, &b) == Some(Ordering::Greater) <==> a.latency
            > b.latency,
        PartialEqSpec::eq_spec(&a, &b) <==> a.latency == b.latency,
        in_order(servers) <==> ascending(servers),
{
    if in_order(servers) {
        assert forall|i: int, j: int|
            #![trigger servers[i], servers[j]]
            0 <= i < j < servers.len() implies servers[i].latency <= servers[j].latency by {
            assert(PartialOrdSpec::partial_cmp_spec(&servers[i], &servers[j]) != Some(
                Ordering::Greater,
            ));
        }
    }
    if ascending(servers) {
        assert forall|i: int, j: int|
            #![trigger servers[i], servers[j]]
            0 <= i < j < servers.len() implies PartialOrdSpec::partial_cmp_spec(
            &servers[i],
            &servers[j],
        ) != Some(Ordering::Greater) by {
            assert(servers[i].latency <= servers[j].latency);
        }
    }
}

} // verus!
