use reql::config::Connection;
use reql::envelope::unwrap_query;
use reql::envelope::wrap_query;
use reql::envelope::QueryType;
use reql::error::Error;
use reql::error::Registered;
use reql::opts::Opts;
use reql::registry::Registry;
use reql::registry::Seed;
use reql::run::Arg;
use reql::run::Client;
use reql::run::Polled;
use reql::run::Received;
use reql::run::Response;
use reql::run::CHANNEL_SIZE;
use reql::server::Address;
use reql::server::IpAddress;
use reql::term::Datum;
use reql::term::Term;

fn term(text: &str) -> Term {
    Term { datum: Some(Datum::Str(String::from(text))), args: vec![], optargs: vec![] }
}

fn on(conn: Connection) -> Arg {
    Arg { term: Ok(term("opts")), remote: None, pool: Some(conn) }
}

fn registered(conn: Connection) -> Registry {
    let mut registry = Registry::new();
    let seed = Seed {
        host: String::from("a"),
        addresses: vec![Address { ip: IpAddress::V4(10, 0, 0, 1), port: 28015 }],
    };
    conn.set_config(&mut registry, Opts::default(), vec![seed], 3).unwrap();
    conn.set_pool(&mut registry, 12);
    registry
}

#[test]
fn run_without_connection_fails_before_there_is_a_stream() {
    let registry = Registry::new();
    let client = Client { term: Ok(term("q")) };
    let args = Arg { term: Ok(term("opts")), remote: Some(1), pool: None };
    match client.run(&registry, args) {
        Err(error) => {
            assert!(matches!(error, Error::ConnectionRequired));
            assert_eq!(error.message(), "`run` requires a connection");
        }
        Ok(_) => panic!("no connection was given"),
    }
}

#[test]
fn run_hands_on_an_earlier_error() {
    let conn = Connection(1);
    let registry = registered(conn);
    let broken = Client { term: Err(Error::FrameTooLong) };
    assert!(matches!(broken.run(&registry, on(conn)), Err(Error::FrameTooLong)));
    let client = Client { term: Ok(term("q")) };
    let bad = Arg { term: Err(Error::Broken), remote: None, pool: Some(conn) };
    assert!(matches!(client.run(&registry, bad), Err(Error::Broken)));
}

#[test]
fn run_on_an_unregistered_connection_is_a_bug() {
    let client = Client { term: Ok(term("q")) };
    let mut registry = Registry::new();
    let conn = Connection(1);
    match client.run(&registry, on(conn)) {
        Err(Error::NotRegistered { part }) => assert_eq!(part, Registered::Pool),
        _ => panic!("not registered"),
    }
    conn.set_pool(&mut registry, 1);
    match client.run(&registry, on(conn)) {
        Err(error) => {
            assert!(matches!(error, Error::NotRegistered { part: Registered::Config }));
            assert_eq!(error.message(), "bug: connection not in CONFIG");
        }
        _ => panic!("not configured"),
    }
}

#[test]
fn run_dispatches_the_query_with_a_snapshot_of_the_configuration() {
    let conn = Connection(1);
    let mut registry = registered(conn);
    let client = Client { term: Ok(term("q")) };
    let dispatch = match client.run(&registry, on(conn)) {
        Ok(dispatch) => dispatch,
        Err(error) => panic!("{:?}", error),
    };
    assert!(matches!(dispatch.request.term.datum, Some(Datum::Str(ref s)) if s == "q"));
    assert!(matches!(dispatch.request.opts.datum, Some(Datum::Str(ref s)) if s == "opts"));
    assert_eq!(dispatch.request.pool, 12);
    assert_eq!(dispatch.request.cfg.remote, 3);
    assert!(dispatch.request.write);
    assert!(!dispatch.request.retry);
    assert!(!dispatch.response.done);
    assert!(dispatch.response.wants_channel());
    conn.reset_cluster(&mut registry);
    assert_eq!(dispatch.request.cfg.cluster.len(), 1);
    assert_eq!(CHANNEL_SIZE, 1024);
}

#[test]
fn items_come_in_the_order_of_their_arrival() {
    let mut response = Response { done: false };
    assert!(matches!(response.poll(Some(Received::Item(Ok(1)))), Ok(Polled::Item(1))));
    assert!(matches!(response.poll::<i32>(Some(Received::NotReady)), Ok(Polled::NotReady)));
    assert!(matches!(response.poll::<i32>(None), Ok(Polled::NotReady)));
    assert!(matches!(response.poll(Some(Received::Item(Ok(2)))), Ok(Polled::Item(2))));
    assert!(!response.done);
}

#[test]
fn a_closed_channel_ends_the_stream_for_good() {
    let mut response = Response { done: false };
    assert!(matches!(response.poll::<i32>(Some(Received::Closed)), Ok(Polled::Finished)));
    assert!(response.done);
    assert!(!response.wants_channel());
    assert!(matches!(response.poll(Some(Received::Item(Ok(5)))), Ok(Polled::Finished)));
    assert!(matches!(response.poll::<i32>(Some(Received::Failed)), Ok(Polled::Finished)));
    assert!(matches!(response.poll::<i32>(Some(Received::Item(Err(Error::Broken)))), Ok(Polled::Finished)));
    assert!(matches!(response.poll::<i32>(None), Ok(Polled::Finished)));
    assert!(response.done);
}

#[test]
fn an_error_ends_the_stream_for_good() {
    let mut response = Response { done: false };
    assert!(matches!(
        response.poll::<i32>(Some(Received::Item(Err(Error::Broken)))),
        Err(Error::Broken)
    ));
    assert!(response.done);
    assert!(matches!(response.poll(Some(Received::Item(Ok(5)))), Ok(Polled::Finished)));

    let mut response = Response { done: false };
    match response.poll::<i32>(Some(Received::Failed)) {
        Err(error) => assert_eq!(error.message(), "an error occured while processing the stream"),
        other => panic!("{:?}", other),
    }
    assert!(response.done);
    assert!(matches!(response.poll::<i32>(Some(Received::NotReady)), Ok(Polled::Finished)));
}

#[test]
fn envelope_unwraps_to_what_was_wrapped() {
    let term = String::from("[15,[\"a,b\",{\"k\":[1,2]}]]");
    let options = String::from("{\"db\":[14,[\"te\\\"s,t\"]],\"x\":[1,2]}");
    let both = wrap_query(QueryType::Start, Some(term.clone()), Some(options.clone()));
    assert_eq!(unwrap_query(&both), Some(vec![String::from("1"), term.clone(), options]));
    let one = wrap_query(QueryType::Start, Some(term.clone()), None);
    assert_eq!(unwrap_query(&one), Some(vec![String::from("1"), term]));
    let none = wrap_query(QueryType::Stop, None, None);
    assert_eq!(unwrap_query(&none), Some(vec![String::from("3")]));
}

#[test]
fn what_is_no_envelope_does_not_unwrap() {
    assert_eq!(unwrap_query(""), None);
    assert_eq!(unwrap_query("["), None);
    assert_eq!(unwrap_query("1,2"), None);
    assert_eq!(unwrap_query("[1,[2]"), None);
    assert_eq!(unwrap_query("[1,\"a]"), None);
    assert_eq!(unwrap_query("[]"), Some(vec![String::new()]));
    assert_eq!(unwrap_query("[1,ü,\"é,\"]"), Some(vec![
        String::from("1"),
        String::from("ü"),
        String::from("\"é,\"")
    ]));
}
