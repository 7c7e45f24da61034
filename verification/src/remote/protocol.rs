//! The messages exchanged with a running checker, and the decisions each
//! side takes on what it receives: the version handshake, the acceptance
//! of a request, and the replies that make up a transaction.

use std::io::Error as IoError;
use serde_json::Error as JsonError;
use vstd::prelude::*;
use crate::text::str_eq;

verus! {

/// The version of the protocol, which both sides must share.
pub const VERSION: &'static str = "0.1.0";

/// What went wrong in talking to the other side.
pub enum ProtocolError {
    Io(IoError),
    Json(JsonError),
    VersionMismatch(String),
    Violation(&'static str),
}

/// A request to the server.
#[derive(Clone, Copy, Debug, PartialEq, Eq, Structural)]
pub enum Message {
    Ping,
    Check,
}

/// What the server answers.
pub enum Reply {
    Hello { version: String },
    Accepted,
    Data { data: ReplyData },
    End,
}

/// One piece of the answer to a request.
pub enum ReplyData {
    Error { msg: String, details: Vec<Detail> },
    Warning { msg: String, details: Vec<Detail> },
    Okay,
}

/// A detail of a reported error: a further message, or a place.
pub enum Detail {
    Message { msg: String },
    Loc { msg: String, loc: Loc },
}

/// A place in a file, by the file's path and a byte range.
pub struct Loc {
    pub file: String,
    pub begin_pos: usize,
    pub end_pos: usize,
}

/// The outcome of the version handshake, given the version the other side
/// sent, if it sent one.
pub open spec fn handshake_result(remote: Option<Seq<char>>) -> Result<(), Option<Seq<char>>> {
    match remote {
        Some(v) => if v == VERSION@ { Ok(()) } else { Err(Some(v)) },
        None => Err(None),
    }
}

/// Decides the version handshake on the version the other side sent:
/// the same version goes on, another one is a mismatch, and none at all
/// breaks the protocol.
pub fn check_version(remote: Option<&str>) -> (r: Result<(), ProtocolError>)
    ensures
        match remote {
            Some(v) => if v@ == VERSION@ {
                r is Ok
            } else {
                r matches Err(ProtocolError::VersionMismatch(s)) && s@ == v@
            },
            None => r matches Err(ProtocolError::Violation(m)) && m@ == "expected version handshake"@,
        },
{
    match remote {
        Some(v) => {
            if str_eq(v, VERSION) {
                Ok(())
            } else {
                Err(ProtocolError::VersionMismatch(v.to_owned()))
            }
        },
        None => Err(ProtocolError::Violation("expected version handshake")),
    }
}

/// Decides what the server's first answer to a request means: only
/// `Accepted` opens a transaction.
pub fn accept_reply(reply: Option<Reply>) -> (r: Result<(), ProtocolError>)
    ensures
        match reply {
            Some(Reply::Accepted) => r is Ok,
            None => r matches Err(ProtocolError::Violation(m)) && m@ == "server closed connection unexpectedly"@,
            Some(_) => r matches Err(ProtocolError::Violation(m)) && m@ == "unexpected reply"@,
        },
{
    match reply {
        Some(Reply::Accepted) => Ok(()),
        None => Err(ProtocolError::Violation("server closed connection unexpectedly")),
        Some(_) => Err(ProtocolError::Violation("unexpected reply")),
    }
}

/// A transaction with the server, as replies come in: whether its end was
/// seen.
pub struct ServerTransaction {
    pub complete: bool,
}

impl ServerTransaction {
    pub fn new() -> (r: ServerTransaction)
        ensures
            !r.complete,
    {
        ServerTransaction { complete: false }
    }

    /// What receiving `received` yields: the data of a data reply; nothing
    /// at the end; an error for any other reply or a closed connection,
    /// both of which end the transaction; and a failure to receive as it
    /// is.
    pub fn next(&mut self, received: Result<Option<Reply>, ProtocolError>) -> (r: Option<Result<ReplyData, ProtocolError>>)
        ensures
            match received {
                Ok(Some(Reply::Data { data })) => r == Some(Ok::<ReplyData, ProtocolError>(data))
                    && final(self).complete == old(self).complete,
                Ok(Some(Reply::End)) => r is None && final(self).complete,
                Ok(Some(_)) => final(self).complete && (r matches Some(Err(ProtocolError::Violation(m)))
                    && m@ == "unexpected reply"@),
                Ok(None) => final(self).complete && (r matches Some(Err(ProtocolError::Violation(m)))
                    && m@ == "server closed connection unexpectedly"@),
                Err(e) => r == Some(Err::<ReplyData, ProtocolError>(e)) && final(self).complete == old(self).complete,
            },
    {
        match received {
            Ok(Some(Reply::Data { data })) => Some(Ok(data)),
            Ok(Some(Reply::End)) => {
                self.complete = true;
                None
            },
            Ok(Some(_)) => {
                self.complete = true;
                Some(Err(ProtocolError::Violation("unexpected reply")))
            },
            Ok(None) => {
                self.complete = true;
                Some(Err(ProtocolError::Violation("server closed connection unexpectedly")))
            },
            Err(e) => Some(Err(e)),
        }
    }

    /// Whether the rest of the transaction must still be read before the
    /// connection can be used again.
    pub fn needs_drain(&self) -> (r: bool)
        ensures
            r == !self.complete,
    {
        !self.complete
    }
}

/// The reply that carries `data` in a transaction.
pub fn data_reply(data: ReplyData) -> (r: Reply)
    ensures
        r == (Reply::Data { data }),
{
    Reply::Data { data }
}

} // verus!
