//! The gateway's failures. Each carries a kind and the message that is shown or logged.
use vstd::prelude::*;

verus! {

/// What went wrong.
#[derive(Clone, Copy, Debug, PartialEq, Eq, Structural)]
pub enum ErrorKind {
    /// The configuration cannot be used.
    Config,
    /// An IRC client may not register: it gave no nick, or one without a profile.
    AuthRejected,
    /// A call of the Slack API failed, at whatever layer.
    Api,
    /// A channel or a session that an operation needs is not known.
    MappingNotFound,
    /// Slack sent an event of a type that the gateway does not handle.
    UnhandledEvent,
}

/// A failure of the gateway.
#[derive(Debug)]
pub struct GatewayError {
    pub kind: ErrorKind,
    pub message: String,
}

impl GatewayError {
    /// Whether this is a failure of `kind` with the message `message`.
    pub open spec fn is(self, kind: ErrorKind, message: Seq<char>) -> bool {
        self.kind == kind && self.message@ == message
    }

    /// A failure of `kind` with the message `message`.
    pub fn new(kind: ErrorKind, message: String) -> (error: GatewayError)
        ensures
            error.is(kind, message@),
    {
        GatewayError { kind, message }
    }

    /// The message, for showing or logging.
    pub fn to_string(&self) -> (message: String)
        ensures
            message@ == self.message@,
    {
        self.message.clone()
    }
}

} // verus!
