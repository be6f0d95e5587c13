use reql::error::Error;
use reql::error::ErrorKind;
use reql::error::FrameStep;
use reql::error::Registered;
use reql::error::Scalar;
use reql::opts::parse_options;
use reql::opts::Opts;
use reql::term::find_datum;
use reql::term::take_bool;
use reql::term::take_string;
use reql::term::Datum;
use reql::term::OptArg;
use reql::term::Term;

fn constant(datum: Datum) -> Term {
    Term { datum: Some(datum), args: vec![], optargs: vec![] }
}

fn text(s: &str) -> Term {
    constant(Datum::Str(String::from(s)))
}

fn list(args: Vec<Term>) -> Term {
    Term { datum: None, args, optargs: vec![] }
}

fn options(pairs: Vec<(&str, Term)>) -> Term {
    Term {
        datum: None,
        args: vec![],
        optargs: pairs.into_iter().map(|(key, val)| OptArg { key: String::from(key), val }).collect(),
    }
}

fn strs(datums: Vec<Datum>) -> Vec<String> {
    datums
        .into_iter()
        .map(|d| match d {
            Datum::Str(s) => s,
            other => panic!("{:?}", other),
        })
        .collect()
}

#[test]
fn default_options() {
    let opts = Opts::default();
    assert_eq!(opts.db, "test");
    assert_eq!(opts.user, "admin");
    assert_eq!(opts.password, "");
    assert_eq!(opts.retries, 5);
    assert!(!opts.reproducible);
    assert_eq!(opts.tls, None);
}

#[test]
fn datum_of_a_constant_is_itself() {
    let found = find_datum(text("x"));
    assert_eq!(strs(found), vec!["x"]);
}

#[test]
fn datums_of_nested_terms_come_from_left_to_right() {
    let term = list(vec![text("a"), list(vec![text("b"), list(vec![]), text("c")]), text("d")]);
    assert_eq!(strs(find_datum(term)), vec!["a", "b", "c", "d"]);
}

#[test]
fn a_constant_hides_its_arguments() {
    let term = Term { datum: Some(Datum::Bool(true)), args: vec![text("a")], optargs: vec![] };
    let found = find_datum(term);
    assert_eq!(found.len(), 1);
    assert!(matches!(found[0], Datum::Bool(true)));
    assert!(find_datum(list(vec![])).is_empty());
}

#[test]
fn take_string_takes_the_first_text() {
    let got = take_string("db", vec![Datum::Str(String::from("x")), Datum::Bool(true)]);
    assert_eq!(got.unwrap(), "x");
}

#[test]
fn take_string_names_the_option_that_is_no_text() {
    for val in [vec![], vec![Datum::Bool(true)], vec![Datum::Null], vec![Datum::Other]] {
        match take_string("db", val) {
            Err(Error::OptionType { key, expected }) => {
                assert_eq!(key, "db");
                assert_eq!(expected, Scalar::Text);
            }
            other => panic!("{:?}", other),
        }
    }
    let error = take_string("user", vec![]).unwrap_err();
    assert_eq!(error.message(), "`user` must be a string");
    assert_eq!(error.kind(), ErrorKind::Configuration);
}

#[test]
fn take_bool_takes_the_first_boolean() {
    assert_eq!(take_bool("reproducible", vec![Datum::Bool(true)]).unwrap(), true);
    assert_eq!(take_bool("reproducible", vec![Datum::Bool(false), Datum::Null]).unwrap(), false);
    let error = take_bool("reproducible", vec![Datum::Str(String::from("yes"))]).unwrap_err();
    assert_eq!(error.message(), "`reproducible` must be a boolean");
    assert!(take_bool("reproducible", vec![]).is_err());
}

#[test]
fn options_are_read_in_their_order() {
    let term = options(vec![
        ("db", text("blog")),
        ("user", text("bob")),
        ("password", text("secret")),
        ("reproducible", constant(Datum::Bool(true))),
        ("servers", list(vec![text("db1"), text("db2:29015")])),
        ("db", text("shop")),
        ("servers", text("db3")),
        ("unknown", constant(Datum::Null)),
    ]);
    let parsed = parse_options(term).unwrap();
    assert_eq!(parsed.opts.db, "shop");
    assert_eq!(parsed.opts.user, "bob");
    assert_eq!(parsed.opts.password, "secret");
    assert!(parsed.opts.reproducible);
    assert_eq!(parsed.opts.retries, 5);
    assert_eq!(parsed.hosts, vec!["db1", "db2:29015", "db3"]);
}

#[test]
fn without_servers_the_local_host_is_the_seed() {
    let parsed = parse_options(options(vec![])).unwrap();
    assert_eq!(parsed.hosts, vec!["localhost"]);
    assert_eq!(parsed.opts.db, "test");
    assert_eq!(parsed.opts.user, "admin");
    let parsed = parse_options(options(vec![("servers", list(vec![]))])).unwrap();
    assert_eq!(parsed.hosts, vec!["localhost"]);
}

#[test]
fn the_first_malformed_option_fails_the_reading() {
    let term = options(vec![
        ("db", text("blog")),
        ("reproducible", text("yes")),
        ("user", constant(Datum::Bool(true))),
    ]);
    match parse_options(term) {
        Err(Error::OptionType { key, expected }) => {
            assert_eq!(key, "reproducible");
            assert_eq!(expected, Scalar::Boolean);
        }
        other => panic!("{:?}", other),
    }
    let term = options(vec![("servers", list(vec![text("a"), constant(Datum::Other)]))]);
    let error = parse_options(term).unwrap_err();
    assert_eq!(error.message(), "`servers` must be a string");
}

#[test]
fn clone_of_a_term_is_alike() {
    let term = Term {
        datum: None,
        args: vec![text("a"), list(vec![constant(Datum::Bool(false))])],
        optargs: vec![OptArg { key: String::from("k"), val: text("v") }],
    };
    let copy = term.clone();
    assert_eq!(copy.args.len(), 2);
    assert_eq!(copy.optargs.len(), 1);
    assert_eq!(copy.optargs[0].key, "k");
    assert_eq!(strs(find_datum(copy.optargs[0].val.clone())), vec!["v"]);
    let mut found = find_datum(copy);
    assert!(matches!(found.pop(), Some(Datum::Bool(false))));
    assert_eq!(strs(found), vec!["a"]);
    assert_eq!(term.args.len(), 2);
}

#[test]
fn every_error_has_its_text_and_kind() {
    let cases = vec![
        (Error::RuntimeRequired, "a runtime handle is required", ErrorKind::Configuration),
        (Error::ConnectionRequired, "`run` requires a connection", ErrorKind::Configuration),
        (Error::Resolve { host: String::from("h") }, "failed to resolve `h`", ErrorKind::Io),
        (Error::Pool { reason: String::from("no pool") }, "no pool", ErrorKind::Io),
        (Error::Session { step: FrameStep::Token }, "session failed on the token of a frame", ErrorKind::Io),
        (Error::Session { step: FrameStep::Length }, "session failed on the length of a frame", ErrorKind::Io),
        (Error::Session { step: FrameStep::Payload }, "session failed on the payload of a frame", ErrorKind::Io),
        (Error::Session { step: FrameStep::Flush }, "session failed on the flush of a frame", ErrorKind::Io),
        (Error::Broken, "session is broken", ErrorKind::Io),
        (Error::FrameTooLong, "query is too long for a frame", ErrorKind::Io),
        (Error::NotRegistered { part: Registered::Pool }, "bug: connection not in POOL", ErrorKind::Internal),
        (Error::NotRegistered { part: Registered::Config }, "bug: connection not in CONFIG", ErrorKind::Internal),
        (Error::NotConfigured, "conn.set_latency() called before setting configuration", ErrorKind::Internal),
        (Error::Unmaintained, "bug: the maintenance of the connection has ended", ErrorKind::Internal),
        (Error::Stream, "an error occured while processing the stream", ErrorKind::Stream),
    ];
    for (error, text, kind) in cases {
        assert_eq!(error.message(), text);
        assert_eq!(error.kind(), kind);
        assert_eq!(error.clone().message(), text);
    }
}
