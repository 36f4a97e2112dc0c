//! Why a channel cannot be spliced.

use vstd::prelude::*;

verus! {

/// Why a channel refused a request.
#[derive(Debug, PartialEq, Eq)]
pub enum APIError {
    /// The call was misused.
    APIMisuseError {
        /// A human-readable error message.
        err: String,
    },
    /// The feerate was too high to complete the request.
    FeeRateTooHigh {
        /// A human-readable error message.
        err: String,
        /// The feerate which was too high.
        feerate: u32,
    },
    /// A malformed route was provided.
    InvalidRoute {
        /// A human-readable error message.
        err: String,
    },
    /// The channel or peer is gone or unable to complete the request.
    ChannelUnavailable {
        /// A human-readable error message.
        err: String,
    },
    /// The persistence of a monitor update is awaiting asynchronous resolution.
    MonitorUpdateInProgress,
    /// The shutdown script is incompatible with what the counterparty negotiated.
    IncompatibleShutdownScript {
        /// The bytes of the script.
        script: Vec<u8>,
    },
}

/// Why a contribution could not be rebuilt.
#[derive(Clone, Copy, Debug, PartialEq, Eq)]
pub enum Error {
    /// The channel could not be spliced.
    ChannelSplicingFailed,
}

} // verus!
