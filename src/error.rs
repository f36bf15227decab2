use vstd::prelude::*;

verus! {

/// The ways an operation on the sample buffer or on a session can fail.
#[derive(Clone, Copy, Debug, PartialEq, Eq, Structural)]
pub enum StreamError {
    /// A buffer of capacity zero was requested.
    Construction,
    /// A read or write asked for more samples than the buffer can ever hold.
    OversizedRequest,
    /// A write does not fit into the free space; nothing was written.
    Overflow,
    /// The session no longer (or not yet) accepts this operation.
    Disconnected,
    /// Received bytes end in part of a sample: their count is not a multiple of four.
    PartialSample,
    /// A handshake header does not follow `stream <sin|mic> <NN>s`.
    MalformedHandshake,
}

} // verus!
