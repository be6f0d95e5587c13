use reql::cluster::Cluster;
use reql::server::Address;
use reql::server::IpAddress;
use reql::server::Server;
use reql::server::UNREACHABLE;
use reql::topology::Applied;
use reql::topology::Change;
use reql::topology::ServerStatus;

fn addr(last: u8) -> Address {
    Address { ip: IpAddress::V4(10, 0, 0, last), port: 28015 }
}

fn names(cluster: &Cluster) -> Vec<String> {
    cluster.servers().into_iter().map(|s| s.name).collect()
}

fn status(name: &str, last: u8) -> ServerStatus {
    ServerStatus { name: String::from(name), addresses: vec![IpAddress::V4(10, 0, 0, last)], port: 28015 }
}

fn three() -> Cluster {
    let mut cluster = Cluster::new();
    cluster.insert(Server::new("a", vec![addr(1)]));
    cluster.insert(Server::new("b", vec![addr(2)]));
    cluster.insert(Server::new("c", vec![addr(3)]));
    cluster
}

#[test]
fn new_cluster_is_empty() {
    let cluster = Cluster::new();
    assert_eq!(cluster.len(), 0);
    assert!(cluster.get("a").is_none());
    assert!(cluster.server_at(0).is_none());
    assert!(cluster.fastest().is_none());
    assert!(cluster.servers().is_empty());
}

#[test]
fn insert_appends_new_names_in_order() {
    let cluster = three();
    assert_eq!(cluster.len(), 3);
    assert_eq!(names(&cluster), vec!["a", "b", "c"]);
    assert_eq!(cluster.get("b").unwrap().addresses, vec![addr(2)]);
    assert_eq!(cluster.server_at(2).unwrap().name, "c");
    assert!(cluster.server_at(3).is_none());
}

#[test]
fn a_server_without_address_is_not_taken() {
    let mut cluster = three();
    assert!(!cluster.insert(Server::new("d", vec![])));
    assert!(!cluster.insert(Server::new("a", vec![])));
    assert_eq!(names(&cluster), vec!["a", "b", "c"]);
    assert_eq!(cluster.get("a").unwrap().addresses, vec![addr(1)]);
    assert!(cluster.insert(Server::new("d", vec![addr(4)])));
    assert_eq!(cluster.len(), 4);
}

#[test]
fn insert_replaces_a_name_where_it_stands() {
    let mut cluster = three();
    let mut b = Server::new("b", vec![addr(9)]);
    b.latency = 5;
    cluster.insert(b);
    assert_eq!(cluster.len(), 3);
    assert_eq!(names(&cluster), vec!["a", "b", "c"]);
    assert_eq!(cluster.get("b").unwrap().addresses, vec![addr(9)]);
    assert_eq!(cluster.get("b").unwrap().latency, 5);
}

#[test]
fn remove_moves_the_last_server_into_the_gap() {
    let mut cluster = three();
    cluster.remove("a");
    assert_eq!(names(&cluster), vec!["c", "b"]);
    assert!(cluster.get("a").is_none());
    cluster.remove("b");
    assert_eq!(names(&cluster), vec!["c"]);
    cluster.remove("c");
    assert_eq!(cluster.len(), 0);
}

#[test]
fn remove_of_an_unknown_name_changes_nothing() {
    let mut cluster = three();
    cluster.remove("x");
    assert_eq!(names(&cluster), vec!["a", "b", "c"]);
}

#[test]
fn latencies_are_recorded_in_the_order_of_the_servers() {
    let mut cluster = three();
    cluster.set_latency(&vec![vec![Some(30)], vec![None], vec![Some(10)]]);
    assert_eq!(cluster.get("a").unwrap().latency, 30);
    assert_eq!(cluster.get("b").unwrap().latency, UNREACHABLE);
    assert_eq!(cluster.get("c").unwrap().latency, 10);
    cluster.set_latency_at(1, &vec![Some(20)]);
    assert_eq!(cluster.get("b").unwrap().latency, 20);
    cluster.set_latency_at(7, &vec![Some(1)]);
    assert_eq!(names(&cluster), vec!["a", "b", "c"]);
    assert_eq!(cluster.fastest().unwrap().name, "c");
}

#[test]
fn fastest_is_the_first_of_the_lowest_latency() {
    let mut cluster = three();
    cluster.set_latency(&vec![vec![Some(8)], vec![Some(3)], vec![Some(3)]]);
    assert_eq!(cluster.fastest().unwrap().name, "b");
    let untouched = three();
    assert_eq!(untouched.fastest().unwrap().name, "a");
}

#[test]
fn duplicate_holds_the_same_servers() {
    let cluster = three();
    let copy = cluster.duplicate();
    assert_eq!(names(&copy), vec!["a", "b", "c"]);
}

#[test]
fn status_becomes_a_server_with_the_port_on_every_host() {
    let s = ServerStatus {
        name: String::from("n1"),
        addresses: vec![IpAddress::V4(10, 0, 0, 1), IpAddress::V6(1)],
        port: 29015,
    };
    let server = s.to_server();
    assert_eq!(server.name, "n1");
    assert_eq!(
        server.addresses,
        vec![
            Address { ip: IpAddress::V4(10, 0, 0, 1), port: 29015 },
            Address { ip: IpAddress::V6(1), port: 29015 }
        ]
    );
    assert_eq!(server.latency, UNREACHABLE);
}

#[test]
fn added_record_applied_twice_leaves_one_entry() {
    let mut cluster = three();
    let change = Change { new_val: Some(status("n2", 2)), old_val: None };
    assert_eq!(cluster.apply_change(&change, &vec![Some(11)]), Applied::Upserted);
    assert_eq!(cluster.apply_change(&change, &vec![Some(7)]), Applied::Upserted);
    assert_eq!(names(&cluster), vec!["a", "b", "c", "n2"]);
    let n2 = cluster.get("n2").unwrap();
    assert_eq!(n2.addresses, vec![addr(2)]);
    assert_eq!(n2.latency, 7);
}

#[test]
fn updated_record_replaces_the_addresses() {
    let mut cluster = three();
    let change = Change { new_val: Some(status("b", 42)), old_val: Some(status("b", 2)) };
    assert_eq!(cluster.apply_change(&change, &vec![None]), Applied::Upserted);
    assert_eq!(names(&cluster), vec!["a", "b", "c"]);
    assert_eq!(cluster.get("b").unwrap().addresses, vec![addr(42)]);
    assert_eq!(cluster.get("b").unwrap().latency, UNREACHABLE);
}

#[test]
fn removed_record_for_an_unknown_name_is_a_no_op() {
    let mut cluster = three();
    let change = Change { new_val: None, old_val: Some(status("zz", 9)) };
    assert_eq!(cluster.apply_change(&change, &vec![]), Applied::Removed);
    assert_eq!(names(&cluster), vec!["a", "b", "c"]);
}

#[test]
fn added_then_removed_leaves_the_store_without_the_server() {
    let mut cluster = Cluster::new();
    cluster.insert(Server::new("n1", vec![addr(1)]));
    let added = Change {
        new_val: Some(ServerStatus {
            name: String::from("n2"),
            addresses: vec![IpAddress::V4(10, 0, 0, 2)],
            port: 28015,
        }),
        old_val: None,
    };
    let removed = Change { new_val: None, old_val: Some(status("n2", 2)) };
    assert_eq!(cluster.apply_change(&added, &vec![Some(4)]), Applied::Upserted);
    assert_eq!(cluster.get("n2").unwrap().addresses, vec![addr(2)]);
    assert_eq!(cluster.apply_change(&removed, &vec![]), Applied::Removed);
    assert!(cluster.get("n2").is_none());
    assert_eq!(names(&cluster), vec!["n1"]);
}

#[test]
fn records_of_no_shape_are_passed_over() {
    let mut cluster = three();
    let neither = Change { new_val: None, old_val: None };
    assert_eq!(cluster.apply_change(&neither, &vec![]), Applied::Skipped);
    let no_address = Change {
        new_val: Some(ServerStatus { name: String::from("n9"), addresses: vec![], port: 1 }),
        old_val: None,
    };
    assert_eq!(cluster.apply_change(&no_address, &vec![]), Applied::Skipped);
    assert_eq!(names(&cluster), vec!["a", "b", "c"]);
}
