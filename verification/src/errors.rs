//! Error taxonomy for the kernel communication core.

use vstd::prelude::*;

verus! {

/// Everything that can go wrong while talking to a kernel.
///
/// Each kind maps to one stable human-readable message, so the surrounding
/// application can distinguish "kernel never answered" from "kernel
/// disappeared mid-execution" from "bad credentials/signature".
#[derive(Clone, Copy, Debug, PartialEq, Eq, Structural)]
pub enum Error {
    /// A channel endpoint could not be bound or dialed within the setup timeout.
    TransportUnavailable,
    /// A receive on a closed or reset transport.
    ChannelClosed,
    /// A frame with too few segments to carry a message.
    MalformedFrame,
    /// The recomputed digest of a frame disagrees with the one it carries.
    SignatureMismatch,
    /// A required channel could not be established while opening a session.
    KernelConnect,
    /// The kernel went away while the session was live.
    KernelDisconnect,
    /// A second start on a handle whose session is still active.
    AlreadyConnected,
    /// A pending request was cancelled by its caller before any reply.
    Cancelled,
}

impl Error {
    /// The stable display text of this error kind.
    pub open spec fn spec_message(self) -> Seq<char> {
        match self {
            Error::TransportUnavailable => "transport endpoint unavailable"@,
            Error::ChannelClosed => "channel closed"@,
            Error::MalformedFrame => "malformed frame"@,
            Error::SignatureMismatch => "signature mismatch"@,
            Error::KernelConnect => "could not connect to the kernel"@,
            Error::KernelDisconnect => "disconnected from the kernel"@,
            Error::AlreadyConnected => "already connected to a kernel"@,
            Error::Cancelled => "request cancelled"@,
        }
    }

    /// One human-readable message per error kind, for display at the boundary.
    pub fn message(&self) -> (r: String)
        ensures
            r@ == self.spec_message(),
    {
        match self {
            Error::TransportUnavailable => "transport endpoint unavailable".to_string(),
            Error::ChannelClosed => "channel closed".to_string(),
            Error::MalformedFrame => "malformed frame".to_string(),
            Error::SignatureMismatch => "signature mismatch".to_string(),
            Error::KernelConnect => "could not connect to the kernel".to_string(),
            Error::KernelDisconnect => "disconnected from the kernel".to_string(),
            Error::AlreadyConnected => "already connected to a kernel".to_string(),
            Error::Cancelled => "request cancelled".to_string(),
        }
    }
}

} // verus!
