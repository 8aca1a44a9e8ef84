//! What can go wrong in a transport.

use crate::text::push_dec;
use vstd::prelude::*;
use vstd::string::StringExecFns;

verus! {

/// A transport error. `TimeOut` carries the endpoint's address and `IO` the system's message, both
/// as text.
#[derive(Debug)]
pub enum Error {
    NoWorker,
    TimeOut(String),
    ListenerHasBeenClosed,
    Unauthorized,
    InvalidPacket,
    IfaceSendFailed,
    UnexpectedResult(String),
    IO(String),
    ChannelNotWork,
}

impl Error {
    /// The text that describes an error.
    pub open spec fn text(self) -> Seq<char> {
        match self {
            Error::NoWorker => "no worker"@,
            Error::TimeOut(ip) => "process time out: '"@ + ip@ + "'"@,
            Error::ListenerHasBeenClosed => "listener has been closed"@,
            Error::Unauthorized => "unauthorized"@,
            Error::InvalidPacket => "invalid packet"@,
            Error::IfaceSendFailed => "iface send failed"@,
            Error::UnexpectedResult(what) => "unexpected result: `"@ + what@ + "`"@,
            Error::IO(what) => "io error: `"@ + what@ + "`"@,
            Error::ChannelNotWork => "channel not work"@,
        }
    }

    /// Describes the error.
    pub fn message(&self) -> (s: String)
        ensures
            s@ == self.text(),
    {
        match self {
            Error::NoWorker => String::from_str("no worker"),
            Error::TimeOut(ip) => enclose("process time out: '", ip.as_str(), "'"),
            Error::ListenerHasBeenClosed => String::from_str("listener has been closed"),
            Error::Unauthorized => String::from_str("unauthorized"),
            Error::InvalidPacket => String::from_str("invalid packet"),
            Error::IfaceSendFailed => String::from_str("iface send failed"),
            Error::UnexpectedResult(what) => enclose("unexpected result: `", what.as_str(), "`"),
            Error::IO(what) => enclose("io error: `", what.as_str(), "`"),
            Error::ChannelNotWork => String::from_str("channel not work"),
        }
    }

    /// Whether this is `UnexpectedResult` with the given text.
    pub open spec fn is_unexpected(self, what: Seq<char>) -> bool {
        self matches Error::UnexpectedResult(s) && s@ == what
    }

    /// An `UnexpectedResult` with the given text.
    pub fn unexpected(what: &str) -> (e: Error)
        ensures
            e.is_unexpected(what@),
    {
        Error::UnexpectedResult(String::from_str(what))
    }
}

/// `left`, `middle` and `right`, one after the other.
pub fn enclose(left: &str, middle: &str, right: &str) -> (s: String)
    ensures
        s@ == left@ + middle@ + right@,
{
    let mut s = String::from_str(left);
    s.append(middle);
    s.append(right);
    s
}

/// The text of a frame that is too long: its size and the limit.
pub open spec fn oversize_text(size: nat, limit: nat) -> Seq<char> {
    "frame size "@ + crate::text::dec(size) + " exceeds maximum "@ + crate::text::dec(limit)
}

/// Describes a frame that is too long.
pub fn oversize(size: u64, limit: u64) -> (s: String)
    ensures
        s@ == oversize_text(size as nat, limit as nat),
{
    let mut s = String::from_str("frame size ");
    push_dec(&mut s, size);
    s.append(" exceeds maximum ");
    push_dec(&mut s, limit);
    s
}

} // verus!
