//! The failure taxonomy of the delivery pipeline.

use vstd::prelude::*;

verus! {

/// Everything that can go wrong while delivering one frame.
#[derive(Copy, Clone, Debug, PartialEq, Eq, Structural)]
pub enum DeliveryError {
    /// The source photo could not be decoded; the photo is skipped, the
    /// refresh goes on.
    DecodeError,
    /// A connect, read or write failed; the session is aborted.
    NetworkError,
    /// The peer broke the protocol: a short acknowledgment, or end of
    /// stream before the known total byte count. Treated like a network
    /// failure; a retried session starts the frame over from byte zero.
    ProtocolViolation,
    /// The panel's busy line was not released within the bounded wait.
    HardwareTimeout,
}

impl DeliveryError {
    /// A short human-readable name for logs.
    pub fn describe(self) -> (r: &'static str)
        ensures
            self is DecodeError ==> r@ == "decode error"@,
            self is NetworkError ==> r@ == "network error"@,
            self is ProtocolViolation ==> r@ == "protocol violation"@,
            self is HardwareTimeout ==> r@ == "hardware timeout"@,
    {
        match self {
            DeliveryError::DecodeError => "decode error",
            DeliveryError::NetworkError => "network error",
            DeliveryError::ProtocolViolation => "protocol violation",
            DeliveryError::HardwareTimeout => "hardware timeout",
        }
    }
}

} // verus!
