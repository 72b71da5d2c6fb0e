//! The error kinds that the balancer core can report.

use vstd::prelude::*;

verus! {

/// Everything that can go wrong in the core. None of these is fatal: I/O and
/// parse errors are recovered where they occur, the others are handed to the
/// caller.
#[derive(Debug, Clone, Copy, PartialEq, Eq, Structural)]
pub enum Error {
    /// An upstream could not be reached.
    ConnectFailed,
    /// A live upstream connection failed.
    IoBroken,
    /// A frame is not JSON, or lacks a field that is needed.
    ParseError,
    /// A user asked for a subscription request that was never registered.
    UnknownSubscription,
    /// A call result was handed to the notification dispatcher.
    MisroutedCall,
    /// A call waited past its deadline.
    Timeout,
    /// A user's outbound channel is closed.
    SendFailed,
}

impl Error {
    /// A short description of the error, for logs and for replies.
    pub fn message(&self) -> (text: String)
        ensures
            text@ == self.message_text(),
    {
        match self {
            Error::ConnectFailed => "Failed to connect to the upstream node".to_string(),
            Error::IoBroken => "The upstream connection broke".to_string(),
            Error::ParseError => "The frame is not valid JSON-RPC".to_string(),
            Error::UnknownSubscription => "Subscription does not exist!".to_string(),
            Error::MisroutedCall => "Trying to send a call as a subscription!".to_string(),
            Error::Timeout => "The call timed out".to_string(),
            Error::SendFailed => "The user's channel is closed".to_string(),
        }
    }

    /// The text that [`Error::message`] returns.
    pub open spec fn message_text(&self) -> Seq<char> {
        match self {
            Error::ConnectFailed => "Failed to connect to the upstream node"@,
            Error::IoBroken => "The upstream connection broke"@,
            Error::ParseError => "The frame is not valid JSON-RPC"@,
            Error::UnknownSubscription => "Subscription does not exist!"@,
            Error::MisroutedCall => "Trying to send a call as a subscription!"@,
            Error::Timeout => "The call timed out"@,
            Error::SendFailed => "The user's channel is closed"@,
        }
    }
}

} // verus!
