//! The options of a connection, and how they are read from the term that
//! `connect` is called with.

use crate::error::Error;
use crate::error::Scalar;
use crate::term::datums;
use crate::term::find_datum;
use crate::term::option_error;
use crate::term::take_bool;
use crate::term::take_string;
use crate::term::Datum;
use crate::term::OptArg;
use crate::term::Term;
use vstd::prelude::*;

verus! {

/// The options of a connection.
#[derive(Debug)]
pub struct Opts {
    pub db: String,
    pub user: String,
    pub password: String,
    pub retries: u64,
    /// Whether queries run without the tie-breaking by chance.
    pub reproducible: bool,
    /// The TLS configuration, by the number under which the caller keeps it.
    pub tls: Option<u64>,
}

/// What `Opts` holds, as mathematical values.
pub struct OptsView {
    pub db: Seq<char>,
    pub user: Seq<char>,
    pub password: Seq<char>,
    pub retries: u64,
    pub reproducible: bool,
    pub tls: Option<u64>,
}

impl View for Opts {
    type V = OptsView;

    open spec fn view(&self) -> OptsView {
        OptsView {
            db: self.db@,
            user: self.user@,
            password: self.password@,
            retries: self.retries,
            reproducible: self.reproducible,
            tls: self.tls,
        }
    }
}

/// The options of a connection that sets none.
pub open spec fn default_opts() -> OptsView {
    OptsView {
        db: "test"@,
        user: "admin"@,
        password: Seq::empty(),
        retries: 5,
        reproducible: false,
        tls: None,
    }
}

impl Default for Opts {
    fn default() -> (r: Opts)
        ensures
            r@ == default_opts(),
    {
        Opts {
            db: String::from_str("test"),
            user: String::from_str("admin"),
            password: String::new(),
            retries: 5,
            reproducible: false,
            tls: None,
        }
    }
}

impl Clone for Opts {
    fn clone(&self) -> (r: Opts)
        ensures
            r == *self,
    {
        Opts {
            db: self.db.clone(),
            user: self.user.clone(),
            password: self.password.clone(),
            retries: self.retries,
            reproducible: self.reproducible,
            tls: self.tls,
        }
    }
}

/// The options and the seed hosts that `connect` was called with.
#[derive(Debug)]
pub struct ConnectOptions {
    pub opts: Opts,
    pub hosts: Vec<String>,
}

/// What `ConnectOptions` holds, as mathematical values.
pub struct Settings {
    pub opts: OptsView,
    pub hosts: Seq<Seq<char>>,
}

/// The texts of some strings.
pub open spec fn names(hosts: Seq<String>) -> Seq<Seq<char>> {
    Seq::new(hosts.len(), |i: int| hosts[i]@)
}

impl View for ConnectOptions {
    type V = Settings;

    open spec fn view(&self) -> Settings {
        Settings { opts: self.opts@, hosts: names(self.hosts@) }
    }
}

/// What reading options gives: the settings, or the option whose value has not
/// the type that the option takes.
pub enum Parsed {
    Done(Settings),
    Failed { key: Seq<char>, expected: Scalar },
}

/// Whether the first of the constants is a text.
pub open spec fn starts_with_text(val: Seq<Datum>) -> bool {
    val.len() > 0 && val[0] is Str
}

/// Whether the first of the constants is a boolean.
pub open spec fn starts_with_bool(val: Seq<Datum>) -> bool {
    val.len() > 0 && val[0] is Bool
}

/// Whether each of the constants is a text.
pub open spec fn all_texts(val: Seq<Datum>) -> bool {
    forall|i: int| 0 <= i < val.len() ==> (#[trigger] val[i]) is Str
}

/// The texts of constants that are texts.
pub open spec fn texts_of(val: Seq<Datum>) -> Seq<Seq<char>> {
    Seq::new(val.len(), |i: int| val[i]->Str_0@)
}

/// The settings after one more option: `db`, `user` and `password` take a
/// text, `reproducible` a boolean, `servers` texts, each of which is one more
/// seed host; an option of another name changes nothing.
pub open spec fn with_option(acc: Settings, key: Seq<char>, val: Seq<Datum>) -> Parsed {
    if key == "db"@ {
        if starts_with_text(val) {
            Parsed::Done(Settings { opts: OptsView { db: val[0]->Str_0@, ..acc.opts }, ..acc })
        } else {
            Parsed::Failed { key, expected: Scalar::Text }
        }
    } else if key == "user"@ {
        if starts_with_text(val) {
            Parsed::Done(Settings { opts: OptsView { user: val[0]->Str_0@, ..acc.opts }, ..acc })
        } else {
            Parsed::Failed { key, expected: Scalar::Text }
        }
    } else if key == "password"@ {
        if starts_with_text(val) {
            Parsed::Done(
                Settings { opts: OptsView { password: val[0]->Str_0@, ..acc.opts }, ..acc },
            )
        } else {
            Parsed::Failed { key, expected: Scalar::Text }
        }
    } else if key == "reproducible"@ {
        if starts_with_bool(val) {
            Parsed::Done(
                Settings { opts: OptsView { reproducible: val[0]->Bool_0, ..acc.opts }, ..acc },
            )
        } else {
            Parsed::Failed { key, expected: Scalar::Boolean }
        }
    } else if key == "servers"@ {
        if all_texts(val) {
            Parsed::Done(Settings { hosts: acc.hosts + texts_of(val), ..acc })
        } else {
            Parsed::Failed { key, expected: Scalar::Text }
        }
    } else {
        Parsed::Done(acc)
    }
}

/// The settings after the first `upto` options, read in their order from the
/// defaults; the first option that fails ends the reading.
pub open spec fn options_upto(optargs: Seq<OptArg>, upto: int) -> Parsed
    decreases upto,
{
    if upto <= 0 || upto > optargs.len() {
        Parsed::Done(Settings { opts: default_opts(), hosts: Seq::empty() })
    } else {
        match options_upto(optargs, upto - 1) {
            Parsed::Done(acc) => with_option(
                acc,
                optargs[upto - 1].key@,
                datums(optargs[upto - 1].val),
            ),
            failed => failed,
        }
    }
}

/// The settings that a term asks for: its options read in their order, and the
/// local host as the one seed where the options name none.
pub open spec fn settings_of(term: Term) -> Parsed {
    match options_upto(term.optargs@, term.optargs@.len() as int) {
        Parsed::Done(acc) => Parsed::Done(
            if acc.hosts.len() == 0 {
                Settings { hosts: seq!["localhost"@], ..acc }
            } else {
                acc
            },
        ),
        failed => failed,
    }
}

/// An option that failed stays failed, whatever follows it.
proof fn lemma_failed_stays(optargs: Seq<OptArg>, at: int, upto: int)
    requires
        0 <= at <= upto <= optargs.len(),
        options_upto(optargs, at) is Failed,
    ensures
        options_upto(optargs, upto) == options_upto(optargs, at),
    decreases upto - at,
{
    if at < upto {
        lemma_failed_stays(optargs, at, upto - 1);
    }
}

/// Whether an option has this name.
fn is_key(key: &String, name: &str) -> (r: bool)
    ensures
        r == (key@ == name@),
{
    let other = String::from_str(name);
    *key == other
}

/// One more option read into the options and the seed hosts.
#[verifier::loop_isolation(false)]
fn read_option(opts: &mut Opts, hosts: &mut Vec<String>, key: &String, val: Vec<Datum>) -> (r:
    Result<(), Error>)
    ensures
        match r {
            Ok(()) => with_option(
                Settings { opts: old(opts)@, hosts: names(old(hosts)@) },
                key@,
                val@,
            ) == Parsed::Done(Settings { opts: final(opts)@, hosts: names(final(hosts)@) }),
            Err(error) => with_option(
                Settings { opts: old(opts)@, hosts: names(old(hosts)@) },
                key@,
                val@,
            ) matches Parsed::Failed { key: k, expected } && option_error(error, k, expected),
        },
{
    if is_key(key, "db") {
        match take_string(key.as_str(), val) {
            Ok(text) => {
                opts.db = text;
            },
            Err(error) => {
                return Err(error);
            },
        }
    } else if is_key(key, "user") {
        match take_string(key.as_str(), val) {
            Ok(text) => {
                opts.user = text;
            },
            Err(error) => {
                return Err(error);
            },
        }
    } else if is_key(key, "password") {
        match take_string(key.as_str(), val) {
            Ok(text) => {
                opts.password = text;
            },
            Err(error) => {
                return Err(error);
            },
        }
    } else if is_key(key, "reproducible") {
        match take_bool(key.as_str(), val) {
            Ok(flag) => {
                opts.reproducible = flag;
            },
            Err(error) => {
                return Err(error);
            },
        }
    } else if is_key(key, "servers") {
        let ghost before = names(hosts@);
        let ghost all = val@;
        for host in it: val
            invariant
                it.seq() == all,
                all_texts(all.take(it.index() as int)),
                names(hosts@) == before + texts_of(all.take(it.index() as int)),
        {
            let ghost seen = all.take(it.index() as int);
            let ghost next = all.take(it.index() + 1);
            assert(next[it.index() as int] == host);
            let ghost hosts_before = hosts@;
            let single = vec![host];
            assert(single@[0] == host);
            match take_string(key.as_str(), single) {
                Ok(text) => {
                    hosts.push(text);
                    assert(host == Datum::Str(text));
                    assert(next.len() == seen.len() + 1);
                    assert forall|i: int| 0 <= i < seen.len() implies seen[i] == next[i] by {}
                    assert(names(hosts_before) == before + texts_of(seen));
                    assert forall|i: int| 0 <= i < names(hosts@).len() implies names(hosts@)[i] == (
                    before + texts_of(next))[i] by {
                        if i < hosts_before.len() {
                            assert(names(hosts@)[i] == names(hosts_before)[i]);
                            assert(names(hosts_before)[i] == (before + texts_of(seen))[i]);
                            if i >= before.len() {
                                assert(texts_of(seen)[i - before.len()] == texts_of(next)[i
                                    - before.len()]);
                            }
                        } else {
                            assert(i - before.len() == seen.len());
                        }
                    }
                    assert forall|i: int| 0 <= i < next.len() implies (#[trigger] next[i]) is Str by {
                        if i < seen.len() {
                            assert(seen[i] == next[i]);
                        }
                    }
                    assert(names(hosts@) =~= before + texts_of(next));
                },
                Err(error) => {
                    assert(!(all[it.index() as int] is Str));
                    return Err(error);
                },
            }
        }
        assert(all.take(all.len() as int) =~= all);
    }
    Ok(())
}

/// Reads the options of a connection from the term that `connect` was called
/// with. Fails on the first option whose value has not the type that the
/// option takes, with an error that names the option.
pub fn parse_options(term: Term) -> (r: Result<ConnectOptions, Error>)
    ensures
        match r {
            Ok(options) => settings_of(term) == Parsed::Done(options@),
            Err(error) => settings_of(term) matches Parsed::Failed { key, expected }
                && option_error(error, key, expected),
        },
{
    let mut opts = Opts::default();
    let mut hosts: Vec<String> = Vec::new();
    let ghost all = term.optargs@;
    assert(names(hosts@) =~= Seq::<Seq<char>>::empty());
    for arg in it: term.optargs
        invariant
            it.seq() == all,
            all == term.optargs@,
            options_upto(all, it.index() as int) == Parsed::Done(
                Settings { opts: opts@, hosts: names(hosts@) },
            ),
    {
        let ghost at = it.index() as int;
        assert(all[at] == arg);
        let val = find_datum(arg.val);
        match read_option(&mut opts, &mut hosts, &arg.key, val) {
            Ok(()) => {},
            Err(error) => {
                proof {
                    lemma_failed_stays(all, at + 1, all.len() as int);
                }
                return Err(error);
            },
        }
    }
    if hosts.len() == 0 {
        hosts.push(String::from_str("localhost"));
        assert(names(hosts@) =~= seq!["localhost"@]);
    }
    Ok(ConnectOptions { opts, hosts })
}

} // verus!
