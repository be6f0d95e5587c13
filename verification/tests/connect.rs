use reql::config::Connection;
use reql::connect::connect;
use reql::connect::connect_as;
use reql::connect::next_lookup;
use reql::connect::pool_settings;
use reql::connect::ConnectAction;
use reql::connect::ConnectEvent;
use reql::connect::ConnectStage;
use reql::connect::Connecting;
use reql::connect::Lookup;
use reql::error::Error;
use reql::error::Registered;
use reql::registry::Registry;
use reql::run::Arg;
use reql::run::Client;
use reql::server::Address;
use reql::server::IpAddress;
use reql::server::UNREACHABLE;
use reql::term::Datum;
use reql::term::OptArg;
use reql::term::Term;
use reql::topology::Change;
use reql::topology::FeedEvent;
use reql::topology::FeedItem;
use reql::topology::MaintainerAction;
use reql::topology::MaintainerState;
use reql::topology::ServerStatus;

fn addr(last: u8) -> Address {
    Address { ip: IpAddress::V4(127, 0, 0, last), port: 28015 }
}

fn empty() -> Term {
    Term { datum: None, args: vec![], optargs: vec![] }
}

fn client() -> Client {
    Client { term: Ok(empty()) }
}

fn servers(hosts: Vec<&str>) -> Term {
    let args = hosts
        .into_iter()
        .map(|h| Term { datum: Some(Datum::Str(String::from(h))), args: vec![], optargs: vec![] })
        .collect();
    Term {
        datum: None,
        args: vec![],
        optargs: vec![OptArg {
            key: String::from("servers"),
            val: Term { datum: None, args, optargs: vec![] },
        }],
    }
}

fn args(term: Term) -> Arg {
    Arg { term: Ok(term), remote: Some(4), pool: None }
}

fn up_to_pooling(registry: &mut Registry, conn: Connection) -> Connecting {
    let mut connecting = connect_as(conn, &client(), args(servers(vec!["a", "b"]))).unwrap();
    let found = vec![Some(vec![addr(1)]), Some(vec![addr(2), addr(3)])];
    assert!(matches!(
        connecting.step(registry, ConnectEvent::Resolved(found)),
        ConnectAction::Probe(_)
    ));
    let runs = vec![vec![Some(20)], vec![None, Some(10)]];
    assert!(matches!(
        connecting.step(registry, ConnectEvent::Probed(runs)),
        ConnectAction::BuildPool(_)
    ));
    connecting
}

#[test]
fn pool_settings_are_fixed() {
    let s = pool_settings();
    assert_eq!(s.pool_size, 144);
    assert_eq!(s.idle_timeout, Some(120));
    assert_eq!(s.max_lifetime, Some(86400));
    assert_eq!(s.min_idle, Some(5));
    assert_eq!(s.connection_timeout, 90);
}

#[test]
fn localhost_is_tried_as_it_is_and_then_with_the_default_port() {
    match next_lookup("localhost", &vec![]) {
        Lookup::Try(text) => assert_eq!(text, "localhost"),
        other => panic!("{:?}", other),
    }
    match next_lookup("localhost", &vec![None]) {
        Lookup::Try(text) => assert_eq!(text, "localhost:28015"),
        other => panic!("{:?}", other),
    }
    match next_lookup("localhost", &vec![None, Some(vec![addr(1)])]) {
        Lookup::Found(addresses) => assert_eq!(addresses, vec![addr(1)]),
        other => panic!("{:?}", other),
    }
    match next_lookup("localhost", &vec![Some(vec![addr(1), addr(2)])]) {
        Lookup::Found(addresses) => assert_eq!(addresses, vec![addr(1), addr(2)]),
        other => panic!("{:?}", other),
    }
    assert!(matches!(next_lookup("localhost", &vec![None, None]), Lookup::Failed));
    assert!(matches!(next_lookup("localhost", &vec![Some(vec![])]), Lookup::Failed));
    assert!(matches!(next_lookup("localhost", &vec![None, Some(vec![])]), Lookup::Failed));
}

#[test]
fn connect_without_servers_seeds_the_local_host() {
    let connecting = connect(&Registry::new(), &client(), args(empty())).unwrap();
    assert_eq!(connecting.hosts, vec!["localhost"]);
    assert_eq!(connecting.stage, ConnectStage::Resolving);
    assert_eq!(connecting.remote, 4);
    assert_eq!(connecting.opts.db, "test");
    match connecting.begin() {
        ConnectAction::Resolve(hosts) => assert_eq!(hosts, vec!["localhost"]),
        other => panic!("{:?}", other),
    }
}

#[test]
fn connect_succeeds_only_if_the_seed_resolves() {
    let conn = Connection(5);
    let mut registry = Registry::new();
    let mut connecting = connect_as(conn, &client(), args(empty())).unwrap();
    match connecting.step(&mut registry, ConnectEvent::Resolved(vec![None])) {
        ConnectAction::Fail(Error::Resolve { host }) => assert_eq!(host, "localhost"),
        other => panic!("{:?}", other),
    }
    assert_eq!(connecting.stage, ConnectStage::Failed);
    assert!(conn.config(&registry).is_none());

    let mut connecting = connect_as(conn, &client(), args(empty())).unwrap();
    match connecting.step(&mut registry, ConnectEvent::Resolved(vec![Some(vec![addr(1)])])) {
        ConnectAction::Probe(servers) => {
            assert_eq!(servers.len(), 1);
            assert_eq!(servers[0].name, "localhost");
            assert_eq!(servers[0].addresses, vec![addr(1)]);
            assert_eq!(servers[0].latency, UNREACHABLE);
        }
        other => panic!("{:?}", other),
    }
    assert_eq!(connecting.stage, ConnectStage::Probing);
    assert_eq!(conn.config(&registry).unwrap().cluster.len(), 1);
}

#[test]
fn fresh_handles_are_random_identifiers_of_version_four() {
    let a = connect(&Registry::new(), &client(), args(empty())).unwrap().conn;
    let b = connect(&Registry::new(), &client(), args(empty())).unwrap().conn;
    assert_ne!(a, b);
    for conn in [a, b] {
        assert_eq!((conn.0 >> 76) & 0xf, 4);
        assert_eq!((conn.0 >> 62) & 0x3, 2);
    }
}

#[test]
fn a_new_handle_is_one_that_the_registry_does_not_hold() {
    let mut registry = Registry::new();
    let taken = Connection(0x4000_8000_0000_0000_0000);
    assert_eq!(registry.free_handle(taken), taken);
    assert!(!registry.holds(taken));
    taken.set_pool(&mut registry, 1);
    assert!(registry.holds(taken));
    assert_eq!(registry.free_handle(taken), Connection(0));
    Connection(0).set_pool(&mut registry, 2);
    Connection(1).set_pool(&mut registry, 3);
    Connection(3).set_pool(&mut registry, 4);
    assert_eq!(registry.free_handle(taken), Connection(2));
    assert_eq!(registry.free_handle(Connection(1)), Connection(2));
    assert_eq!(registry.free_handle(Connection(9)), Connection(9));
    let begun = connect(&registry, &client(), args(empty())).unwrap();
    assert!(!registry.holds(begun.conn));
}

#[test]
fn connect_hands_on_an_earlier_error() {
    let broken = Client { term: Err(Error::Stream) };
    assert!(matches!(connect(&Registry::new(), &broken, args(empty())), Err(Error::Stream)));
    let bad_args = Arg { term: Err(Error::Broken), remote: None, pool: None };
    assert!(matches!(connect(&Registry::new(), &broken, bad_args), Err(Error::Stream)));
    let bad_args = Arg { term: Err(Error::Broken), remote: None, pool: None };
    assert!(matches!(connect(&Registry::new(), &client(), bad_args), Err(Error::Broken)));
}

#[test]
fn connect_requires_a_runtime() {
    let no_runtime = Arg { term: Ok(empty()), remote: None, pool: None };
    let error = connect(&Registry::new(), &client(), no_runtime).unwrap_err();
    assert!(matches!(error, Error::RuntimeRequired));
    assert_eq!(error.message(), "a runtime handle is required");
}

#[test]
fn connect_names_the_malformed_option() {
    let term = Term {
        datum: None,
        args: vec![],
        optargs: vec![OptArg {
            key: String::from("db"),
            val: Term { datum: Some(Datum::Bool(true)), args: vec![], optargs: vec![] },
        }],
    };
    let error = connect(&Registry::new(), &client(), args(term)).unwrap_err();
    assert_eq!(error.message(), "`db` must be a string");
}

#[test]
fn connect_installs_one_config_and_one_pool() {
    let conn = Connection(77);
    let mut registry = Registry::new();
    let mut connecting = up_to_pooling(&mut registry, conn);
    assert_eq!(connecting.stage, ConnectStage::Pooling);
    let config = conn.config(&registry).unwrap();
    assert_eq!(config.cluster.get("a").unwrap().latency, 20);
    assert_eq!(config.cluster.get("b").unwrap().latency, 10);
    assert!(conn.pool(&registry).is_none());

    let mut maintainer = match connecting.step(&mut registry, ConnectEvent::Pooled(Ok(9))) {
        ConnectAction::Maintain(maintainer) => maintainer,
        other => panic!("{:?}", other),
    };
    assert_eq!(maintainer.conn, conn);
    assert_eq!(maintainer.state, MaintainerState::Subscribing);
    assert_eq!(connecting.stage, ConnectStage::Maintaining);
    assert_eq!(conn.pool(&registry), Some(9));
    assert_eq!(conn.config(&registry).unwrap().cluster.len(), 0);

    assert!(matches!(connecting.step(&mut registry, ConnectEvent::Ready), ConnectAction::Wait));
    assert_eq!(connecting.stage, ConnectStage::Maintaining);
    maintainer.step(&mut registry, FeedEvent::Subscribed);
    let added = FeedItem::Expected(Change {
        new_val: Some(ServerStatus {
            name: String::from("n1"),
            addresses: vec![IpAddress::V4(10, 0, 0, 1)],
            port: 28015,
        }),
        old_val: None,
    });
    let item = match maintainer.step(&mut registry, FeedEvent::Item(added)).action {
        MaintainerAction::Probe { item, .. } => item,
        other => panic!("{:?}", other),
    };
    let step = maintainer.step(&mut registry, FeedEvent::Probed(item, vec![Some(3)]));
    assert!(step.notify && maintainer.ready);
    match connecting.step(&mut registry, ConnectEvent::Ready) {
        ConnectAction::Done(done) => assert_eq!(done, conn),
        other => panic!("{:?}", other),
    }
    assert_eq!(connecting.stage, ConnectStage::Connected);
    assert_eq!(conn.config(&registry).unwrap().cluster.len(), 1);
    assert_eq!(conn.pool(&registry), Some(9));

    registry.remove(conn);
    assert!(conn.config(&registry).is_none());
    assert!(conn.pool(&registry).is_none());
}

#[test]
fn a_pool_that_cannot_be_built_leaves_nothing_behind() {
    let conn = Connection(78);
    let mut registry = Registry::new();
    let mut connecting = up_to_pooling(&mut registry, conn);
    match connecting.step(&mut registry, ConnectEvent::Pooled(Err(String::from("refused")))) {
        ConnectAction::Fail(Error::Pool { reason }) => assert_eq!(reason, "refused"),
        other => panic!("{:?}", other),
    }
    assert_eq!(connecting.stage, ConnectStage::Failed);
    assert!(conn.config(&registry).is_none());
    assert!(conn.pool(&registry).is_none());
}

#[test]
fn a_connection_that_lost_its_registration_does_not_stand() {
    let conn = Connection(79);
    let mut registry = Registry::new();
    let mut connecting = up_to_pooling(&mut registry, conn);
    assert!(matches!(
        connecting.step(&mut registry, ConnectEvent::Pooled(Ok(1))),
        ConnectAction::Maintain(_)
    ));
    registry.remove(conn);
    match connecting.step(&mut registry, ConnectEvent::Ready) {
        ConnectAction::Fail(Error::NotRegistered { part }) => assert_eq!(part, Registered::Pool),
        other => panic!("{:?}", other),
    }
    assert_eq!(connecting.stage, ConnectStage::Failed);
}

#[test]
fn probing_without_configuration_fails() {
    let conn = Connection(80);
    let mut registry = Registry::new();
    let mut connecting = connect_as(conn, &client(), args(empty())).unwrap();
    assert!(matches!(
        connecting.step(&mut registry, ConnectEvent::Resolved(vec![Some(vec![addr(1)])])),
        ConnectAction::Probe(_)
    ));
    registry.remove(conn);
    assert!(matches!(
        connecting.step(&mut registry, ConnectEvent::Probed(vec![])),
        ConnectAction::Fail(Error::NotConfigured)
    ));
}

#[test]
fn a_maintenance_that_ended_fails_the_connection() {
    let conn = Connection(82);
    let mut registry = Registry::new();
    let mut connecting = up_to_pooling(&mut registry, conn);
    assert!(matches!(
        connecting.step(&mut registry, ConnectEvent::Pooled(Ok(1))),
        ConnectAction::Maintain(_)
    ));
    match connecting.step(&mut registry, ConnectEvent::Abandoned) {
        ConnectAction::Fail(error) => {
            assert!(matches!(error, Error::Unmaintained));
            assert_eq!(error.message(), "bug: the maintenance of the connection has ended");
        }
        other => panic!("{:?}", other),
    }
    assert_eq!(connecting.stage, ConnectStage::Failed);
    assert!(conn.config(&registry).is_none());
    assert!(conn.pool(&registry).is_none());
    assert!(matches!(connecting.step(&mut registry, ConnectEvent::Abandoned), ConnectAction::Wait));
}

#[test]
fn an_event_out_of_turn_changes_nothing() {
    let conn = Connection(81);
    let mut registry = Registry::new();
    let mut connecting = connect_as(conn, &client(), args(empty())).unwrap();
    assert!(matches!(connecting.step(&mut registry, ConnectEvent::Ready), ConnectAction::Wait));
    assert!(matches!(
        connecting.step(&mut registry, ConnectEvent::Pooled(Ok(1))),
        ConnectAction::Wait
    ));
    assert_eq!(connecting.stage, ConnectStage::Resolving);
    assert!(conn.pool(&registry).is_none());
}
