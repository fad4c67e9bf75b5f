//! Errors reported by the library.
use vstd::prelude::*;
use crate::text::{decimal, push_str, push_decimal};
use crate::v4::proto::Status;
use crate::xdr::XdrError;

verus! {

/// Library result type.
pub type Result<T> = core::result::Result<T, Error>;

/// Errors reported by the NFSv4 client.
#[derive(Debug)]
pub enum Error {
    /// Malformed XDR data.
    Xdr(XdrError),
    /// The peer or the caller violated the protocol's rules.
    Protocol(String),
    /// The server answered an operation with a non-OK status.
    NfsV4 { operation: &'static str, status: Status },
    /// A path is empty or holds a component that cannot be sent.
    InvalidPath(String),
    /// The server target is not usable.
    InvalidTarget(String),
    /// A path component exceeds the protocol's name limit.
    NameTooLong { name: String, max: usize },
    /// A length does not fit the protocol's integer type.
    LengthOutOfRange { len: usize },
    /// A tracked byte-range lock was lost by the server.
    LockLost { status: Status },
    /// An operation failed and the cleanup that followed failed too.
    Cleanup { context: &'static str, error: Box<Error>, cleanup: Box<Error> },
    /// The transport failed to deliver a request or its reply.
    Transport(String),
    /// A mutating request was sent but its reply was lost; the server may
    /// or may not have applied it.
    OutcomeUnknown { operation: &'static str },
}

impl Error {
    /// An error for an operation that the server answered with `status`.
    pub fn nfsv4(operation: &'static str, status: Status) -> (e: Error)
        ensures
            e == (Error::NfsV4 { operation, status }),
    {
        Error::NfsV4 { operation, status }
    }

    /// An error for a failed operation whose cleanup also failed.
    pub fn cleanup(context: &'static str, error: Error, cleanup: Error) -> (e: Error)
        ensures
            e == (Error::Cleanup { context, error: Box::new(error), cleanup: Box::new(cleanup) }),
    {
        Error::Cleanup { context, error: Box::new(error), cleanup: Box::new(cleanup) }
    }

    /// Whether the transport failed, before or after the request went
    /// out, so that the session must be rebuilt.
    pub fn is_transport_failure(&self) -> (r: bool)
        ensures
            r == (*self is Transport || *self is OutcomeUnknown),
    {
        match self {
            Error::Transport(_) | Error::OutcomeUnknown { .. } => true,
            _ => false,
        }
    }

    /// Whether the server reported that the object does not exist.
    pub fn is_not_found(&self) -> (r: bool)
        ensures
            r == (*self matches Error::NfsV4 { status, .. } && status == Status::NoEnt),
    {
        match self {
            Error::NfsV4 { status: Status::NoEnt, .. } => true,
            _ => false,
        }
    }

    /// Whether the server refused the caller's permission.
    pub fn is_permission_denied(&self) -> (r: bool)
        ensures
            r == (*self matches Error::NfsV4 { status, .. } && (status == Status::Perm
                || status == Status::Access)),
    {
        match self {
            Error::NfsV4 { status: Status::Perm, .. } | Error::NfsV4 { status: Status::Access, .. } => true,
            _ => false,
        }
    }

    /// Whether retrying the same request later may succeed.
    pub fn is_retryable(&self) -> (r: bool)
        ensures
            r == (*self is Transport || (*self matches Error::NfsV4 { status, .. }
                && status.spec_is_retryable())),
    {
        match self {
            Error::Transport(_) => true,
            Error::NfsV4 { status, .. } => status.is_retryable(),
            _ => false,
        }
    }

    /// Whether server-side state (an open or a lock) was lost.
    pub fn is_lost_state(&self) -> (r: bool)
        ensures
            r == (*self is LockLost || (*self matches Error::NfsV4 { status, .. }
                && status.spec_indicates_lost_state())),
    {
        match self {
            Error::LockLost { .. } => true,
            Error::NfsV4 { status, .. } => status.indicates_lost_state(),
            _ => false,
        }
    }

    /// Whether the server reported a session failure that a new session
    /// repairs.
    pub fn is_session_recoverable(&self) -> (r: bool)
        ensures
            r == (*self matches Error::NfsV4 { status, .. } && status.spec_requires_session_recovery()),
    {
        match self {
            Error::NfsV4 { status, .. } => status.requires_session_recovery(),
            _ => false,
        }
    }

    /// Whether a mutating request may or may not have been applied.
    pub fn is_outcome_unknown(&self) -> (r: bool)
        ensures
            r == (*self is OutcomeUnknown),
    {
        match self {
            Error::OutcomeUnknown { .. } => true,
            _ => false,
        }
    }

    /// A human-readable description of the error.
    pub fn message(&self) -> (s: String)
        ensures
            s@ == error_message(*self),
        decreases self,
    {
        let mut s = String::new();
        match self {
            Error::Xdr(_) => push_str(&mut s, "malformed XDR data"),
            Error::Protocol(m) => push_str(&mut s, m.as_str()),
            Error::NfsV4 { operation, status } => {
                push_str(&mut s, "NFSv4 ");
                push_str(&mut s, operation);
                push_str(&mut s, " failed with status ");
                push_decimal(&mut s, status.as_u32() as u64);
            },
            Error::InvalidPath(p) => {
                push_str(&mut s, "invalid path: ");
                push_str(&mut s, p.as_str());
            },
            Error::InvalidTarget(t) => {
                push_str(&mut s, "invalid target: ");
                push_str(&mut s, t.as_str());
            },
            Error::NameTooLong { name, max } => {
                push_str(&mut s, "name longer than ");
                push_decimal(&mut s, *max as u64);
                push_str(&mut s, " bytes: ");
                push_str(&mut s, name.as_str());
            },
            Error::LengthOutOfRange { len } => {
                push_str(&mut s, "length out of range: ");
                push_decimal(&mut s, *len as u64);
            },
            Error::LockLost { status } => {
                push_str(&mut s, "byte-range lock lost with status ");
                push_decimal(&mut s, status.as_u32() as u64);
            },
            Error::Cleanup { context, error, cleanup } => {
                let first = error.message();
                let second = cleanup.message();
                push_str(&mut s, first.as_str());
                push_str(&mut s, "; ");
                push_str(&mut s, context);
                push_str(&mut s, " failed: ");
                push_str(&mut s, second.as_str());
            },
            Error::Transport(m) => {
                push_str(&mut s, "transport failure: ");
                push_str(&mut s, m.as_str());
            },
            Error::OutcomeUnknown { operation } => {
                push_str(&mut s, "reply to NFSv4 ");
                push_str(&mut s, operation);
                push_str(&mut s, " was lost; its outcome is unknown");
            },
        }
        s
    }
}

/// The text that [`Error::message`] gives for `e`.
pub open spec fn error_message(e: Error) -> Seq<char>
    decreases e,
{
    match e {
        Error::Xdr(_) => "malformed XDR data"@,
        Error::Protocol(m) => m@,
        Error::NfsV4 { operation, status } => "NFSv4 "@ + operation@ + " failed with status "@
            + decimal(status.code() as nat),
        Error::InvalidPath(p) => "invalid path: "@ + p@,
        Error::InvalidTarget(t) => "invalid target: "@ + t@,
        Error::NameTooLong { name, max } => "name longer than "@ + decimal(max as nat) + " bytes: "@ + name@,
        Error::LengthOutOfRange { len } => "length out of range: "@ + decimal(len as nat),
        Error::LockLost { status } => "byte-range lock lost with status "@ + decimal(status.code() as nat),
        Error::Cleanup { context, error, cleanup } => error_message(*error) + "; "@ + context@ + " failed: "@
            + error_message(*cleanup),
        Error::Transport(m) => "transport failure: "@ + m@,
        Error::OutcomeUnknown { operation } => "reply to NFSv4 "@ + operation@ + " was lost; its outcome is unknown"@,
    }
}

/// Converts an XDR error into a library error.
pub fn xdr_error(e: XdrError) -> (r: Error)
    ensures
        r == Error::Xdr(e),
{
    Error::Xdr(e)
}

/// A protocol error with the given message.
pub fn protocol(message: &str) -> (r: Error)
    ensures
        r matches Error::Protocol(m) && m@ == message@,
{
    Error::Protocol(message.to_owned())
}

} // verus!
