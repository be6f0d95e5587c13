//! The errors of the driver.

use vstd::prelude::*;

verus! {

/// The type that the value of an option must have.
#[derive(Clone, Copy, Debug, PartialEq, Eq, Structural)]
pub enum Scalar {
    Text,
    Boolean,
}

/// The part of the registry in which a connection was looked for.
#[derive(Clone, Copy, Debug, PartialEq, Eq, Structural)]
pub enum Registered {
    Pool,
    Config,
}

/// The step of a frame at which the session failed.
#[derive(Clone, Copy, Debug, PartialEq, Eq, Structural)]
pub enum FrameStep {
    Token,
    Length,
    Payload,
    Flush,
}

/// Where an error comes from.
#[derive(Clone, Copy, Debug, PartialEq, Eq, Structural)]
pub enum ErrorKind {
    /// What the caller handed in cannot be used.
    Configuration,
    /// The network or the session pool failed.
    Io,
    /// The registry does not hold what it must: a fault of the driver.
    Internal,
    /// The worker of a query failed while the stream was read.
    Stream,
}

/// What can go wrong in the driver.
#[derive(Debug)]
pub enum Error {
    /// The value of an option has not the type that the option takes.
    OptionType { key: String, expected: Scalar },
    /// `connect` was called without a handle of the runtime.
    RuntimeRequired,
    /// `run` was called without a connection.
    ConnectionRequired,
    /// A seed host resolved to no address, with and without the default port.
    Resolve { host: String },
    /// The session pool could not be set up.
    Pool { reason: String },
    /// A session failed while a frame was written or read.
    Session { step: FrameStep },
    /// A session that failed before was used again.
    Broken,
    /// A query is too long for the length field of a frame.
    FrameTooLong,
    /// The connection is not in the registry although it must be.
    NotRegistered { part: Registered },
    /// Latencies were asked for before the connection was configured.
    NotConfigured,
    /// The maintenance of a connection ended before it had found a server.
    Unmaintained,
    /// The channel of a response failed.
    Stream,
}

impl Clone for Error {
    fn clone(&self) -> (r: Error)
        ensures
            r == *self,
    {
        match self {
            Error::OptionType { key, expected } => Error::OptionType {
                key: key.clone(),
                expected: *expected,
            },
            Error::RuntimeRequired => Error::RuntimeRequired,
            Error::ConnectionRequired => Error::ConnectionRequired,
            Error::Resolve { host } => Error::Resolve { host: host.clone() },
            Error::Pool { reason } => Error::Pool { reason: reason.clone() },
            Error::Session { step } => Error::Session { step: *step },
            Error::Broken => Error::Broken,
            Error::FrameTooLong => Error::FrameTooLong,
            Error::NotRegistered { part } => Error::NotRegistered { part: *part },
            Error::NotConfigured => Error::NotConfigured,
            Error::Unmaintained => Error::Unmaintained,
            Error::Stream => Error::Stream,
        }
    }
}

impl Error {
    /// The class of the error.
    pub open spec fn kind_of(self) -> ErrorKind {
        match self {
            Error::OptionType { .. } => ErrorKind::Configuration,
            Error::RuntimeRequired => ErrorKind::Configuration,
            Error::ConnectionRequired => ErrorKind::Configuration,
            Error::Resolve { .. } => ErrorKind::Io,
            Error::Pool { .. } => ErrorKind::Io,
            Error::Session { .. } => ErrorKind::Io,
            Error::Broken => ErrorKind::Io,
            Error::FrameTooLong => ErrorKind::Io,
            Error::NotRegistered { .. } => ErrorKind::Internal,
            Error::NotConfigured => ErrorKind::Internal,
            Error::Unmaintained => ErrorKind::Internal,
            Error::Stream => ErrorKind::Stream,
        }
    }

    /// The class of the error.
    pub fn kind(&self) -> (r: ErrorKind)
        ensures
            r == self.kind_of(),
    {
        match self {
            Error::OptionType { .. } => ErrorKind::Configuration,
            Error::RuntimeRequired => ErrorKind::Configuration,
            Error::ConnectionRequired => ErrorKind::Configuration,
            Error::Resolve { .. } => ErrorKind::Io,
            Error::Pool { .. } => ErrorKind::Io,
            Error::Session { .. } => ErrorKind::Io,
            Error::Broken => ErrorKind::Io,
            Error::FrameTooLong => ErrorKind::Io,
            Error::NotRegistered { .. } => ErrorKind::Internal,
            Error::NotConfigured => ErrorKind::Internal,
            Error::Unmaintained => ErrorKind::Internal,
            Error::Stream => ErrorKind::Stream,
        }
    }

    /// The text of the error.
    pub open spec fn text(self) -> Seq<char> {
        match self {
            Error::OptionType { key, expected } => "`"@ + key@ + match expected {
                Scalar::Text => "` must be a string"@,
                Scalar::Boolean => "` must be a boolean"@,
            },
            Error::RuntimeRequired => "a runtime handle is required"@,
            Error::ConnectionRequired => "`run` requires a connection"@,
            Error::Resolve { host } => "failed to resolve `"@ + host@ + "`"@,
            Error::Pool { reason } => reason@,
            Error::Session { step } => match step {
                FrameStep::Token => "session failed on the token of a frame"@,
                FrameStep::Length => "session failed on the length of a frame"@,
                FrameStep::Payload => "session failed on the payload of a frame"@,
                FrameStep::Flush => "session failed on the flush of a frame"@,
            },
            Error::Broken => "session is broken"@,
            Error::FrameTooLong => "query is too long for a frame"@,
            Error::NotRegistered { part } => match part {
                Registered::Pool => "bug: connection not in POOL"@,
                Registered::Config => "bug: connection not in CONFIG"@,
            },
            Error::NotConfigured => "conn.set_latency() called before setting configuration"@,
            Error::Unmaintained => "bug: the maintenance of the connection has ended"@,
            Error::Stream => "an error occured while processing the stream"@,
        }
    }

    /// The text of the error.
    pub fn message(&self) -> (r: String)
        ensures
            r@ == self.text(),
    {
        match self {
            Error::OptionType { key, expected } => {
                let mut r = String::from_str("`");
                r.append(key.as_str());
                match expected {
                    Scalar::Text => r.append("` must be a string"),
                    Scalar::Boolean => r.append("` must be a boolean"),
                }
                r
            },
            Error::RuntimeRequired => String::from_str("a runtime handle is required"),
            Error::ConnectionRequired => String::from_str("`run` requires a connection"),
            Error::Resolve { host } => {
                let mut r = String::from_str("failed to resolve `");
                r.append(host.as_str());
                r.append("`");
                r
            },
            Error::Pool { reason } => reason.clone(),
            Error::Session { step } => match step {
                FrameStep::Token => String::from_str("session failed on the token of a frame"),
                FrameStep::Length => String::from_str("session failed on the length of a frame"),
                FrameStep::Payload => String::from_str("session failed on the payload of a frame"),
                FrameStep::Flush => String::from_str("session failed on the flush of a frame"),
            },
            Error::Broken => String::from_str("session is broken"),
            Error::FrameTooLong => String::from_str("query is too long for a frame"),
            Error::NotRegistered { part } => match part {
                Registered::Pool => String::from_str("bug: connection not in POOL"),
                Registered::Config => String::from_str("bug: connection not in CONFIG"),
            },
            Error::NotConfigured => String::from_str(
                "conn.set_latency() called before setting configuration",
            ),
            Error::Unmaintained => String::from_str(
                "bug: the maintenance of the connection has ended",
            ),
            Error::Stream => String::from_str("an error occured while processing the stream"),
        }
    }
}

} // verus!
