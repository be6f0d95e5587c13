//! The submission of a query: what is handed to the worker that performs it,
//! and the stream on which its results arrive.

use crate::config::Config;
use crate::config::Connection;
use crate::error::Error;
use crate::error::Registered;
use crate::registry::Registry;
use crate::term::alike;
use crate::term::Term;
use vstd::prelude::*;

verus! {

/// The number of results that may wait in the channel of a response.
pub const CHANNEL_SIZE: usize = 1024;

/// A query under construction: its term, or the error that an earlier step of
/// the construction ran into.
#[derive(Debug)]
pub struct Client {
    pub term: Result<Term, Error>,
}

/// The arguments of a command.
#[derive(Debug)]
pub struct Arg {
    /// The arguments as a term, or the error that building them ran into.
    pub term: Result<Term, Error>,
    /// The runtime, by the number under which the caller keeps its handle.
    pub remote: Option<u64>,
    /// The connection to run on.
    pub pool: Option<Connection>,
}

/// The work of one query, as the worker gets it.
pub struct Request {
    pub term: Term,
    pub opts: Term,
    /// The session pool, by the number under which the caller keeps it.
    pub pool: u64,
    pub cfg: Config,
    pub write: bool,
    pub retry: bool,
}

/// The stream of the results of one query.
#[derive(Debug)]
pub struct Response {
    /// Whether the stream has ended. Once set, it stays set.
    pub done: bool,
}

/// What `run` hands back: the work for the worker, and the stream for the
/// caller.
pub struct Dispatch {
    pub request: Request,
    pub response: Response,
}

/// What the channel of a response gave when it was asked.
#[derive(Debug)]
pub enum Received<T> {
    /// Nothing has arrived yet.
    NotReady,
    /// The worker sent a result or an error.
    Item(Result<T, Error>),
    /// The worker is gone and nothing is left.
    Closed,
    /// The channel itself failed.
    Failed,
}

/// What a response gives when it is asked.
#[derive(Debug)]
pub enum Polled<T> {
    /// Nothing has arrived yet.
    NotReady,
    /// The next result.
    Item(T),
    /// No more items.
    Finished,
}

/// Whether a poll leaves the stream ended: it was, or the channel is closed,
/// has failed or brought an error.
pub open spec fn done_after<T>(done: bool, received: Option<Received<T>>) -> bool {
    done || match received {
        Some(Received::Item(Err(_))) => true,
        Some(Received::Closed) => true,
        Some(Received::Failed) => true,
        _ => false,
    }
}

/// What a poll gives. A stream that has ended gives "no more items", whatever
/// the channel holds. Otherwise results come in the order of their arrival, an
/// error of the worker comes as it is, a failure of the channel as a stream
/// error, and a closed channel gives "no more items".
pub open spec fn poll_result<T>(done: bool, received: Option<Received<T>>) -> Result<
    Polled<T>,
    Error,
> {
    if done {
        Ok(Polled::Finished)
    } else {
        match received {
            None => Ok(Polled::NotReady),
            Some(Received::NotReady) => Ok(Polled::NotReady),
            Some(Received::Item(Ok(item))) => Ok(Polled::Item(item)),
            Some(Received::Item(Err(error))) => Err(error),
            Some(Received::Closed) => Ok(Polled::Finished),
            Some(Received::Failed) => Err(Error::Stream),
        }
    }
}

/// Whether a poll ended the stream for the caller: with "no more items" or
/// with an error.
pub open spec fn terminal<T>(result: Result<Polled<T>, Error>) -> bool {
    result is Err || result == Ok::<Polled<T>, Error>(Polled::Finished)
}

impl Response {
    /// Whether the channel is to be asked before the next poll: not once the
    /// stream has ended.
    pub fn wants_channel(&self) -> (r: bool)
        ensures
            r == !self.done,
    {
        !self.done
    }

    /// One poll of the stream. `received` is what the channel gave, `None` where
    /// it was not asked.
    pub fn poll<T>(&mut self, received: Option<Received<T>>) -> (r: Result<Polled<T>, Error>)
        ensures
            r == poll_result(old(self).done, received),
            final(self).done == done_after(old(self).done, received),
            terminal(r) ==> final(self).done,
            old(self).done ==> r == Ok::<Polled<T>, Error>(Polled::Finished),
    {
        if self.done {
            return Ok(Polled::Finished);
        }
        match received {
            None => Ok(Polled::NotReady),
            Some(Received::NotReady) => Ok(Polled::NotReady),
            Some(Received::Item(Ok(item))) => Ok(Polled::Item(item)),
            Some(Received::Item(Err(error))) => {
                self.done = true;
                Err(error)
            },
            Some(Received::Closed) => {
                self.done = true;
                Ok(Polled::Finished)
            },
            Some(Received::Failed) => {
                self.done = true;
                Err(Error::Stream)
            },
        }
    }
}

/// What the channel gave at each poll of a run of polls, from `from` on, gives
/// "no more items" each time once the stream has ended.
pub open spec fn all_finished<T>(done: bool, received: Seq<Option<Received<T>>>, from: int) -> bool
    decreases received.len() - from,
{
    if from < 0 || from >= received.len() {
        true
    } else {
        poll_result(done, received[from]) == Ok::<Polled<T>, Error>(Polled::Finished)
            && all_finished(done_after(done, received[from]), received, from + 1)
    }
}

/// Once a poll has ended the stream, with "no more items" or with an error,
/// every later poll gives "no more items", whatever the channel gives.
pub proof fn lemma_stream_stays_finished<T>(
    done: bool,
    first: Option<Received<T>>,
    later: Seq<Option<Received<T>>>,
)
    requires
        terminal(poll_result(done, first)),
    ensures
        all_finished(done_after(done, first), later, 0),
{
    lemma_finished_from(later, 0);
}

/// A stream that has ended gives "no more items" at every poll.
proof fn lemma_finished_from<T>(received: Seq<Option<Received<T>>>, from: int)
    requires
        0 <= from,
    ensures
        all_finished(true, received, from),
    decreases received.len() - from,
{
    if from < received.len() {
        lemma_finished_from(received, from + 1);
    }
}

/// What `run` decides: the error of the query or of its arguments, if there is
/// one; else that a connection is required; else that the connection must be
/// in the registry with its pool and with its configuration.
pub open spec fn run_error(client: Client, args: Arg, registry: Registry) -> Option<Error> {
    match client.term {
        Err(error) => Some(error),
        Ok(_) => match args.term {
            Err(error) => Some(error),
            Ok(_) => match args.pool {
                None => Some(Error::ConnectionRequired),
                Some(conn) => if registry.pool_of(conn) is None {
                    Some(Error::NotRegistered { part: Registered::Pool })
                } else if registry.config_of(conn) is None {
                    Some(Error::NotRegistered { part: Registered::Config })
                } else {
                    None
                },
            },
        },
    }
}

impl Client {
    /// Submits the query on the connection that the arguments name. On success
    /// the work goes to a worker, and the results come on the stream, which has
    /// not ended. Every failure comes before there is a stream.
    pub fn run(&self, registry: &Registry, args: Arg) -> (r: Result<Dispatch, Error>)
        ensures
            match r {
                Ok(dispatch) => {
                    &&& run_error(*self, args, *registry) is None
                    &&& alike(self.term->Ok_0, dispatch.request.term)
                    &&& dispatch.request.opts == args.term->Ok_0
                    &&& Some(dispatch.request.pool) == registry.pool_of(args.pool->Some_0)
                    &&& Some(dispatch.request.cfg@) == registry.config_of(args.pool->Some_0)
                    &&& dispatch.request.write
                    &&& !dispatch.request.retry
                    &&& !dispatch.response.done
                },
                Err(error) => run_error(*self, args, *registry) == Some(error),
            },
    {
        let cterm = match &self.term {
            Ok(term) => term.clone(),
            Err(error) => {
                return Err(error.clone());
            },
        };
        let aterm = match args.term {
            Ok(term) => term,
            Err(error) => {
                return Err(error);
            },
        };
        let conn = match args.pool {
            Some(conn) => conn,
            None => {
                return Err(Error::ConnectionRequired);
            },
        };
        let pool = match conn.pool(registry) {
            Some(pool) => pool,
            None => {
                return Err(Error::NotRegistered { part: Registered::Pool });
            },
        };
        let cfg = match conn.config(registry) {
            Some(cfg) => cfg,
            None => {
                return Err(Error::NotRegistered { part: Registered::Config });
            },
        };
        Ok(
            Dispatch {
                request: Request { term: cterm, opts: aterm, pool, cfg, write: true, retry: false },
                response: Response { done: false },
            },
        )
    }
}

} // verus!
