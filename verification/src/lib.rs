//! Connection management and wire protocol of a driver for a clustered
//! document database: the cluster topology of each connection, the ranking of
//! servers by latency, the submission of queries and the framing of requests
//! and responses on a session.

pub mod entries;
pub mod server;
pub mod ordered;
pub mod cluster;
pub mod error;
pub mod term;
pub mod opts;
pub mod config;
pub mod registry;
pub mod topology;
pub mod run;
pub mod endian;
pub mod wire;
pub mod envelope;
pub mod connect;
