//! Frames on a session: a query goes out, and a response comes in, as a token
//! of eight bytes, a length of four bytes and as many bytes of payload as the
//! length says, the numbers with the lowest byte first.

use crate::endian::le_bytes;
use crate::endian::le_read_u32;
use crate::endian::le_value;
use crate::endian::le_write_u32;
use crate::endian::le_write_u64;
use crate::endian::lemma_le_bytes_len;
use crate::endian::lemma_le_limits;
use crate::endian::lemma_le_round_trip;
use crate::error::Error;
use crate::error::FrameStep;
use vstd::prelude::*;
use vstd::string::StrSliceExecFns;
use vstd::string::StringSliceAdditionalSpecFns;

verus! {

/// The number of bytes of a token.
pub const TOKEN_BYTES: usize = 8;

/// The number of bytes of a length.
pub const LENGTH_BYTES: usize = 4;

/// What the framing knows of a session: its token, and whether an operation on
/// it has failed. A session that is broken stays broken.
#[derive(Clone, Copy, Debug, PartialEq, Eq, Structural)]
pub struct Session {
    pub id: u64,
    pub broken: bool,
}

/// A frame: token, length of the payload, payload.
pub open spec fn frame(token: u64, payload: Seq<u8>) -> Seq<u8> {
    le_bytes(token as nat, 8) + le_bytes(payload.len(), 4) + payload
}

/// A query on its way out: what is left to do of its frame.
#[derive(Debug)]
pub struct FrameWriter {
    step: FrameStep,
    token: u64,
    payload: Vec<u8>,
}

impl FrameWriter {
    /// The payload fits the length field.
    #[verifier::type_invariant]
    spec fn inv(self) -> bool {
        self.payload@.len() <= u32::MAX
    }

    /// The step that is to be done.
    pub closed spec fn at(&self) -> FrameStep {
        self.step
    }

    /// The token of the frame.
    pub closed spec fn token_of(&self) -> u64 {
        self.token
    }

    /// The payload of the frame.
    pub closed spec fn payload_of(&self) -> Seq<u8> {
        self.payload@
    }

    /// What the step writes; nothing where it flushes.
    pub open spec fn pending(&self) -> Option<Seq<u8>> {
        match self.at() {
            FrameStep::Token => Some(le_bytes(self.token_of() as nat, 8)),
            FrameStep::Length => Some(le_bytes(self.payload_of().len(), 4)),
            FrameStep::Payload => Some(self.payload_of()),
            FrameStep::Flush => None,
        }
    }

    /// The step after this one; none after the flush.
    pub open spec fn following(&self) -> Option<FrameStep> {
        match self.at() {
            FrameStep::Token => Some(FrameStep::Length),
            FrameStep::Length => Some(FrameStep::Payload),
            FrameStep::Payload => Some(FrameStep::Flush),
            FrameStep::Flush => None,
        }
    }

    /// The step that is to be done.
    pub fn step(&self) -> (r: FrameStep)
        ensures
            r == self.at(),
            self.payload_of().len() <= u32::MAX,
    {
        proof {
            use_type_invariant(self);
        }
        self.step
    }

    /// The bytes to write now; `None` where the stream is to be flushed.
    pub fn bytes(&self) -> (r: Option<Vec<u8>>)
        ensures
            match r {
                Some(bytes) => self.pending() == Some(bytes@),
                None => self.pending() is None,
            },
    {
        proof {
            use_type_invariant(self);
        }
        match self.step {
            FrameStep::Token => Some(le_write_u64(self.token)),
            FrameStep::Length => Some(le_write_u32(self.payload.len() as u32)),
            FrameStep::Payload => {
                let mut bytes: Vec<u8> = Vec::new();
                let mut i: usize = 0;
                while i < self.payload.len()
                    invariant
                        i <= self.payload.len(),
                        bytes@ == self.payload@.take(i as int),
                    decreases self.payload.len() - i,
                {
                    bytes.push(self.payload[i]);
                    i += 1;
                }
                assert(bytes@ =~= self.payload@);
                Some(bytes)
            },
            FrameStep::Flush => None,
        }
    }

    /// Takes note of how the step went. After a failure the session is broken
    /// and the frame is given up. After a success the next step follows, or,
    /// after the flush, the frame is out.
    pub fn advance(self, conn: &mut Session, ok: bool) -> (r: Result<Option<FrameWriter>, Error>)
        ensures
            final(conn).id == old(conn).id,
            final(conn).broken == (old(conn).broken || !ok),
            match r {
                Ok(Some(next)) => ok && self.following() == Some(next.at()) && next.token_of()
                    == self.token_of() && next.payload_of() == self.payload_of(),
                Ok(None) => ok && self.following() is None,
                Err(error) => !ok && error == (Error::Session { step: self.at() }),
            },
    {
        proof {
            use_type_invariant(&self);
        }
        if !ok {
            conn.broken = true;
            return Err(Error::Session { step: self.step });
        }
        let next = match self.step {
            FrameStep::Token => FrameStep::Length,
            FrameStep::Length => FrameStep::Payload,
            FrameStep::Payload => FrameStep::Flush,
            FrameStep::Flush => {
                return Ok(None);
            },
        };
        Ok(Some(FrameWriter { step: next, token: self.token, payload: self.payload }))
    }
}

/// Begins the frame of a query on a session: the token of the session, the
/// length of the query in bytes, the query. A broken session takes no frame,
/// and neither does a query that is too long for the length field.
pub fn write_query(conn: &Session, query: &str) -> (r: Result<FrameWriter, Error>)
    ensures
        match r {
            Ok(writer) => {
                &&& !conn.broken
                &&& writer.at() == FrameStep::Token
                &&& writer.token_of() == conn.id
                &&& writer.payload_of() == query.spec_bytes()
                &&& writer.payload_of().len() <= u32::MAX
            },
            Err(error) => if conn.broken {
                error == Error::Broken
            } else {
                query.spec_bytes().len() > u32::MAX && error == Error::FrameTooLong
            },
        },
{
    if conn.broken {
        return Err(Error::Broken);
    }
    let payload = query.as_bytes_vec();
    if payload.len() > u32::MAX as usize {
        return Err(Error::FrameTooLong);
    }
    Ok(FrameWriter { step: FrameStep::Token, token: conn.id, payload })
}

/// What a reader of a frame waits for.
#[derive(Clone, Copy, Debug, PartialEq, Eq, Structural)]
pub enum ReadStage {
    Token,
    Length,
    Payload { length: u32 },
}

/// A response on its way in: what is left to read of its frame.
#[derive(Clone, Copy, Debug, PartialEq, Eq, Structural)]
pub struct FrameReader {
    pub stage: ReadStage,
}

/// What a reader says after a read.
#[derive(Debug)]
pub enum ReadStep {
    /// More is to be read.
    More(FrameReader),
    /// The frame is in: its payload.
    Done(Vec<u8>),
}

impl FrameReader {
    /// The number of bytes that the stage takes.
    pub open spec fn wanted(&self) -> nat {
        match self.stage {
            ReadStage::Token => 8,
            ReadStage::Length => 4,
            ReadStage::Payload { length } => length as nat,
        }
    }

    /// The part of the frame that the stage reads.
    pub open spec fn step(&self) -> FrameStep {
        match self.stage {
            ReadStage::Token => FrameStep::Token,
            ReadStage::Length => FrameStep::Length,
            ReadStage::Payload { .. } => FrameStep::Payload,
        }
    }

    /// The number of bytes to read now, all of them or the read has failed.
    pub fn wants(&self) -> (r: usize)
        ensures
            r == self.wanted(),
    {
        match self.stage {
            ReadStage::Token => TOKEN_BYTES,
            ReadStage::Length => LENGTH_BYTES,
            ReadStage::Payload { length } => length as usize,
        }
    }

    /// Takes what was read: the bytes that the stage wanted, or `None` where
    /// the read failed. After a failure, or with another number of bytes, the
    /// session is broken and the frame is given up. The token is passed over,
    /// the length says how long the payload is, and the payload ends the frame.
    pub fn feed(self, conn: &mut Session, input: Option<Vec<u8>>) -> (r: Result<ReadStep, Error>)
        ensures
            final(conn).id == old(conn).id,
            final(conn).broken == (old(conn).broken || r is Err),
            match r {
                Ok(step) => input matches Some(bytes) && bytes@.len() == self.wanted() && match self.stage {
                    ReadStage::Token => step matches ReadStep::More(next) && next.stage
                        == ReadStage::Length,
                    ReadStage::Length => step matches ReadStep::More(next) && next.stage
                        matches ReadStage::Payload { length } && length as nat == le_value(bytes@),
                    ReadStage::Payload { .. } => step matches ReadStep::Done(payload) && payload
                        == bytes,
                },
                Err(error) => !(input matches Some(bytes) && bytes@.len() == self.wanted()) && error
                    == (Error::Session { step: self.step() }),
            },
    {
        match input {
            Some(bytes) => {
                if bytes.len() == self.wants() {
                    match self.stage {
                        ReadStage::Token => {
                            return Ok(ReadStep::More(FrameReader { stage: ReadStage::Length }));
                        },
                        ReadStage::Length => {
                            let length = le_read_u32(&bytes);
                            assert(bytes@.subrange(0, 4) =~= bytes@);
                            return Ok(
                                ReadStep::More(FrameReader { stage: ReadStage::Payload { length } }),
                            );
                        },
                        ReadStage::Payload { .. } => {
                            return Ok(ReadStep::Done(bytes));
                        },
                    }
                }
            },
            None => {},
        }
        conn.broken = true;
        Err(
            Error::Session {
                step: match self.stage {
                    ReadStage::Token => FrameStep::Token,
                    ReadStage::Length => FrameStep::Length,
                    ReadStage::Payload { .. } => FrameStep::Payload,
                },
            },
        )
    }
}

/// Begins the reading of a frame from a session. A broken session gives no
/// frame.
pub fn read_query(conn: &Session) -> (r: Result<FrameReader, Error>)
    ensures
        match r {
            Ok(reader) => !conn.broken && reader.stage == ReadStage::Token,
            Err(error) => conn.broken && error == Error::Broken,
        },
{
    if conn.broken {
        Err(Error::Broken)
    } else {
        Ok(FrameReader { stage: ReadStage::Token })
    }
}

/// What a writer puts out, step by step, is the frame of its payload: the
/// writers of the four steps of one frame write its token, its length and its
/// payload, and flush.
pub proof fn lemma_writer_emits_frame(
    first: FrameWriter,
    second: FrameWriter,
    third: FrameWriter,
    last: FrameWriter,
)
    requires
        first.at() == FrameStep::Token,
        first.following() == Some(second.at()),
        second.following() == Some(third.at()),
        third.following() == Some(last.at()),
        second.token_of() == first.token_of() && second.payload_of() == first.payload_of(),
        third.payload_of() == first.payload_of(),
    ensures
        last.following() is None,
        last.pending() is None,
        first.pending().unwrap() + second.pending().unwrap() + third.pending().unwrap() == frame(
            first.token_of(),
            first.payload_of(),
        ),
{
}

/// A frame reads back as what was framed: after the eight bytes of the token,
/// the four bytes of the length stand for the length of the payload, and the
/// payload follows.
pub proof fn lemma_frame_reads_back(token: u64, payload: Seq<u8>)
    requires
        payload.len() <= u32::MAX,
    ensures
        frame(token, payload).len() == 12 + payload.len(),
        frame(token, payload).subrange(0, 8) == le_bytes(token as nat, 8),
        le_value(frame(token, payload).subrange(0, 8)) == token,
        le_value(frame(token, payload).subrange(8, 12)) == payload.len(),
        frame(token, payload).subrange(12, 12 + payload.len() as int) == payload,
{
    lemma_le_bytes_len(token as nat, 8);
    lemma_le_bytes_len(payload.len(), 4);
    lemma_le_limits();
    lemma_le_round_trip(token as nat, 8);
    lemma_le_round_trip(payload.len(), 4);
    let whole = frame(token, payload);
    assert(whole.subrange(0, 8) =~= le_bytes(token as nat, 8));
    assert(whole.subrange(8, 12) =~= le_bytes(payload.len(), 4));
    assert(whole.subrange(12, 12 + payload.len() as int) =~= payload);
}

} // verus!
