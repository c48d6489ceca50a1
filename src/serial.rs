//! One request/reply exchange, as decisions on what the transport reported.
//! The caller performs each request on the transport and hands back what
//! happened.
use vstd::prelude::*;

use crate::command::Command;
use crate::hardware::ID;
use crate::response::{frame_error, Response, ResponseError};

verus! {

/// The standard library's I/O error, carried through unchanged.
#[verifier::external_type_specification]
#[verifier::external_body]
pub struct ExIoError(std::io::Error);

/// Why an exchange failed.
#[derive(Debug)]
pub enum SerialError {
    IO(std::io::Error),
    Response(ResponseError),
}

/// What the transport reported for the last request.
#[derive(Debug)]
pub enum Event {
    /// The whole frame was written.
    Written,
    /// Exactly the requested number of bytes arrived.
    Received(Vec<u8>),
    /// Nothing arrived within the transport's timeout while waiting for the
    /// start of a reply.
    Silent,
    /// The transport failed.
    Failed(std::io::Error),
}

/// Where an exchange stands.
#[derive(Debug)]
pub enum Transaction {
    /// The frame is being written; a reply follows unless it was broadcast.
    Sending { reply_expected: bool },
    /// Waiting for the four header bytes: two sync bytes, id and length.
    AwaitingHeader,
    /// Waiting for the `header[3]` bytes that follow the header.
    AwaitingBody { header: Vec<u8> },
}

/// What happens next.
#[derive(Debug)]
pub enum Progress {
    /// Read exactly this many bytes, then report.
    Read(Transaction, usize),
    /// The exchange is over: the reply, or `None` when none comes.
    Done(Result<Option<Response>, SerialError>),
}

/// `res` is what an exchange returns for the received bytes `frame`: the reply
/// read out of it, or the defect that rejects it.
pub open spec fn reply_outcome(frame: Seq<u8>, res: Result<Option<Response>, SerialError>) -> bool {
    match res {
        Ok(Some(resp)) => frame_error(frame) is None && resp.read_from(frame),
        Err(SerialError::Response(e)) => frame_error(frame) == Some(e),
        _ => false,
    }
}

impl Transaction {
    /// The state right after the frame for a command to `id` is handed out.
    pub open spec fn initial(id: ID) -> Transaction {
        Transaction::Sending { reply_expected: !(id is Broadcast) }
    }

    /// What follows once the frame is written.
    pub open spec fn after_written(self) -> Progress {
        match self {
            Transaction::Sending { reply_expected } => if reply_expected {
                Progress::Read(Transaction::AwaitingHeader, 4)
            } else {
                Progress::Done(Ok(None))
            },
            _ => Progress::Done(Ok(None)),
        }
    }

    /// What follows when nothing arrives while waiting for a reply.
    pub open spec fn after_silent(self) -> Progress {
        Progress::Done(Ok(None))
    }

    /// The event is one that can answer this state's request.
    pub open spec fn accepts(self, event: Event) -> bool {
        match event {
            Event::Failed(_) => true,
            Event::Written => self is Sending,
            Event::Silent => self is AwaitingHeader,
            Event::Received(b) => match self {
                Transaction::AwaitingHeader => b@.len() == 4,
                Transaction::AwaitingBody { header } => header@.len() == 4 && b@.len()
                    == header@[3],
                _ => false,
            },
        }
    }

    /// Starts an exchange: the frame to write, and the state that waits for
    /// the write to complete.
    pub fn begin(command: Command) -> (r: (Transaction, Vec<u8>))
        ensures
            r.0 == Transaction::initial(command.id),
            r.1@ == command.spec_build(),
    {
        let reply_expected = match command.id {
            ID::Broadcast => false,
            ID::Single(_) => true,
        };
        let frame = command.build();
        (Transaction::Sending { reply_expected }, frame)
    }

    /// Decides what follows an event. A broadcast is over once written; any
    /// other command reads a four-byte header, then as many bytes as its
    /// length byte says, and validates the whole. Silence while waiting for
    /// the header means no reply; a transport failure ends the exchange.
    pub fn advance(self, event: Event) -> (r: Progress)
        requires
            self.accepts(event),
        ensures
            match event {
                Event::Failed(e) => r == Progress::Done(Err(SerialError::IO(e))),
                Event::Written => r == self.after_written(),
                Event::Silent => r == self.after_silent(),
                Event::Received(b) => match self {
                    Transaction::AwaitingHeader => r == Progress::Read(
                        Transaction::AwaitingBody { header: b },
                        b@[3] as usize,
                    ),
                    Transaction::AwaitingBody { header } => r matches Progress::Done(res)
                        && reply_outcome(header@ + b@, res),
                    _ => false,
                },
            },
    {
        match event {
            Event::Failed(e) => Progress::Done(Err(SerialError::IO(e))),
            Event::Written => match self {
                Transaction::Sending { reply_expected } => {
                    if reply_expected {
                        Progress::Read(Transaction::AwaitingHeader, 4)
                    } else {
                        Progress::Done(Ok(None))
                    }
                },
                _ => Progress::Done(Ok(None)),
            },
            Event::Silent => Progress::Done(Ok(None)),
            Event::Received(bytes) => match self {
                Transaction::AwaitingHeader => {
                    let length = bytes[3] as usize;
                    Progress::Read(Transaction::AwaitingBody { header: bytes }, length)
                },
                Transaction::AwaitingBody { header } => {
                    let mut frame = header;
                    let mut body = bytes;
                    frame.append(&mut body);
                    match Response::try_from(frame.as_slice()) {
                        Ok(response) => Progress::Done(Ok(Some(response))),
                        Err(e) => Progress::Done(Err(SerialError::Response(e))),
                    }
                },
                Transaction::Sending { .. } => Progress::Done(Ok(None)),
            },
        }
    }
}

/// A broadcast command, whatever its instruction, ends with no reply as soon
/// as its frame is written: nothing is read.
pub proof fn lemma_broadcast_yields_none(command: Command)
    requires
        command.id is Broadcast,
    ensures
        Transaction::initial(command.id).after_written() == Progress::Done(Ok(None)),
{
}

} // verus!
