use vstd::prelude::*;

verus! {

/// What can go wrong in this library.
#[derive(Debug, Clone, Copy, PartialEq, Eq, Structural)]
pub enum StretchError {
    /// `samples` interleaved samples do not divide evenly among `channels`
    /// channels: the caller broke the layout contract.
    InvalidLayout { samples: usize, channels: usize },
    /// Channels handed over are none at all, or not all of one length.
    UnevenChannels,
    /// A stretching engine could not be had for the requested format.
    EngineCreation,
    /// The driver answered with something the adapter had not asked for.
    UnexpectedReply,
}

} // verus!
