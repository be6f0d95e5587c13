use reql::server::copy_addresses;
use reql::server::Address;
use reql::server::IpAddress;
use reql::server::Server;
use reql::server::UNREACHABLE;
use std::cmp::Ordering;

fn local(port: u16) -> Address {
    Address { ip: IpAddress::V4(127, 0, 0, 1), port }
}

fn server(name: &str, latency: u128) -> Server {
    let mut s = Server::new(name, vec![local(28015)]);
    s.latency = latency;
    s
}

#[test]
fn new_server_is_unreachable() {
    let s = Server::new("a", vec![local(1), local(2)]);
    assert_eq!(s.name, "a");
    assert_eq!(s.addresses, vec![local(1), local(2)]);
    assert_eq!(s.latency, UNREACHABLE);
    assert_eq!(UNREACHABLE, std::time::Duration::MAX.as_nanos());
}

#[test]
fn servers_order_by_latency() {
    let fast = server("z", 10);
    let slow = server("a", 20);
    assert_eq!(fast.cmp(&slow), Ordering::Less);
    assert_eq!(slow.cmp(&fast), Ordering::Greater);
    assert_eq!(fast.partial_cmp(&slow), Some(Ordering::Less));
    assert!(fast < slow);
    assert!(slow > fast);
    assert!(fast != slow);
}

#[test]
fn servers_with_equal_latency_are_equal_whatever_their_names() {
    let a = server("a", 15);
    let b = Server { name: String::from("b"), addresses: vec![local(7)], latency: 15 };
    assert_eq!(a.cmp(&b), Ordering::Equal);
    assert_eq!(a.partial_cmp(&b), Some(Ordering::Equal));
    assert!(a == b);
    assert!(!(a < b) && !(b < a));
}

#[test]
fn sorting_by_the_server_order_sorts_by_latency() {
    let mut servers = vec![server("a", 30), server("b", 10), server("c", 20), server("d", 5)];
    servers.sort_by(|x, y| x.cmp(y));
    let latencies: Vec<u128> = servers.iter().map(|s| s.latency).collect();
    assert_eq!(latencies, vec![5, 10, 20, 30]);
    let names: Vec<&str> = servers.iter().map(|s| s.name.as_str()).collect();
    assert_eq!(names, vec!["d", "b", "c", "a"]);
}

#[test]
fn first_successful_probe_gives_the_latency() {
    let mut s = Server::new("a", vec![local(1), local(2), local(3)]);
    s.set_latency(&vec![None, Some(42), Some(7)]);
    assert_eq!(s.latency, 42);
    assert_eq!(s.name, "a");
    assert_eq!(s.addresses.len(), 3);
}

#[test]
fn no_measured_time_counts_for_more_than_unreachable() {
    let mut s = Server::new("a", vec![local(1)]);
    s.latency = 5;
    s.set_latency(&vec![Some(u128::MAX)]);
    assert_eq!(s.latency, UNREACHABLE);
    s.set_latency(&vec![Some(UNREACHABLE - 1)]);
    assert_eq!(s.latency, UNREACHABLE - 1);
}

#[test]
fn failed_probes_leave_the_latency() {
    let mut s = Server::new("a", vec![local(1), local(2)]);
    s.set_latency(&vec![None, None]);
    assert_eq!(s.latency, UNREACHABLE);
    s.latency = 9;
    s.set_latency(&vec![]);
    assert_eq!(s.latency, 9);
}

#[test]
fn outcomes_beyond_the_addresses_do_not_count() {
    let mut s = Server::new("a", vec![local(1)]);
    s.set_latency(&vec![None, Some(5)]);
    assert_eq!(s.latency, UNREACHABLE);
}

#[test]
fn probes_go_through_the_addresses_until_one_gets_through() {
    let s = Server::new("a", vec![local(1), local(2)]);
    assert_eq!(s.next_probe(&vec![]), Some(local(1)));
    assert_eq!(s.next_probe(&vec![None]), Some(local(2)));
    assert_eq!(s.next_probe(&vec![None, None]), None);
    assert_eq!(s.next_probe(&vec![Some(3)]), None);
    assert_eq!(s.next_probe(&vec![None, Some(3)]), None);
}

#[test]
fn clone_keeps_everything() {
    let s = server("a", 77);
    let c = s.clone();
    assert_eq!(c.name, "a");
    assert_eq!(c.addresses, s.addresses);
    assert_eq!(c.latency, 77);
    assert_eq!(copy_addresses(&s.addresses), s.addresses);
}
