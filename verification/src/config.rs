//! What the registry keeps of a connection.

use crate::cluster::Cluster;
use crate::opts::Opts;
use crate::opts::OptsView;
use crate::server::ServerView;
use vstd::prelude::*;

verus! {

/// The handle of a connection: a number that no other connection has.
#[derive(Clone, Copy, Debug, PartialEq, Eq, Hash, Structural)]
pub struct Connection(pub u128);

/// The cluster and the options of a connection.
pub struct Config {
    pub cluster: Cluster,
    pub opts: Opts,
    /// The runtime that drives the connection's streams, by the number under
    /// which the caller keeps its handle.
    pub remote: u64,
}

/// What a `Config` holds, as mathematical values.
pub struct ConfigView {
    pub cluster: Seq<(Seq<char>, ServerView)>,
    pub opts: OptsView,
    pub remote: u64,
}

impl View for Config {
    type V = ConfigView;

    open spec fn view(&self) -> ConfigView {
        ConfigView { cluster: self.cluster@, opts: self.opts@, remote: self.remote }
    }
}

impl Clone for Config {
    fn clone(&self) -> (r: Config)
        ensures
            r@ == self@,
    {
        Config { cluster: self.cluster.duplicate(), opts: self.opts.clone(), remote: self.remote }
    }
}

/// What the registry holds under a handle: the configuration, and the session
/// pool by the number under which the caller keeps it.
pub struct Registration {
    pub config: Option<Config>,
    pub pool: Option<u64>,
}

/// What a `Registration` holds, as mathematical values.
pub struct RegistrationView {
    pub config: Option<ConfigView>,
    pub pool: Option<u64>,
}

impl View for Registration {
    type V = RegistrationView;

    open spec fn view(&self) -> RegistrationView {
        RegistrationView {
            config: match self.config {
                Some(config) => Some(config@),
                None => None,
            },
            pool: self.pool,
        }
    }
}

} // verus!
