use crate::buffer::AudioBuffer;
use crate::engine::EngineConfig;
use crate::error::StretchError;
use vstd::prelude::*;

verus! {

/// What the adapter waits for.
#[derive(Debug, Clone, Copy, PartialEq, Eq, Structural)]
pub enum Phase {
    /// The consumer's next pull.
    Idle,
    /// The engine's availability, before anything was fed for this pull.
    AwaitAvailable,
    /// Upstream's format, at a frame boundary.
    AwaitUpstream,
    /// The engine that was asked for.
    AwaitEngine(EngineConfig),
    /// The next sample of upstream.
    AwaitSample,
    /// The engine's availability, after a block was fed.
    AwaitProcessed,
    /// The engine's output.
    AwaitRetrieved,
}

/// What the driver has to do next. It does it and answers with a `Reply`.
#[derive(Debug)]
pub enum Request {
    /// Report upstream's channel count, sample rate and remaining frame
    /// length, with `Reply::Upstream`.
    InspectUpstream,
    /// Create an engine with this configuration. Where that succeeds, let
    /// go of the engine in use and answer `Reply::EngineCreated`; where it
    /// fails, answer `Reply::EngineFailed`.
    CreateEngine(EngineConfig),
    /// Take the next sample from upstream and answer `Reply::Sample`.
    PullSample,
    /// Feed the block to the engine, as its last one if `final_block` says
    /// so, and answer with the engine's availability, `Reply::Available`.
    Process { block: AudioBuffer, final_block: bool },
    /// Answer with the engine's availability, `Reply::Available`.
    QueryAvailable,
    /// Let the engine fill the buffer and answer `Reply::Retrieved`, with
    /// the number of samples for each channel that the engine wrote.
    Retrieve { buffer: AudioBuffer },
    /// Hand this to the consumer: a sample, or the end of the stream.
    Deliver(Option<u32>),
    /// Report this error to whoever runs the stream.
    Fault(StretchError),
}

/// What the driver hands to the adapter.
#[derive(Debug)]
pub enum Reply {
    /// The consumer asks for a sample.
    Pull,
    /// Upstream's format.
    Upstream { channels: u16, sample_rate: u32, frame_len: Option<usize> },
    /// The engine asked for is in use now.
    EngineCreated,
    /// The engine asked for could not be had.
    EngineFailed,
    /// Upstream's next sample; none when upstream has ended for good.
    Sample(Option<u32>),
    /// The stretched samples for each channel that the engine holds ready.
    Available(i32),
    /// The buffer as the engine filled it, and the number of samples for
    /// each channel that it wrote.
    Retrieved { buffer: AudioBuffer, count: u32 },
}

/// A request, with buffers as the sequences that they hold.
pub enum Instruction {
    InspectUpstream,
    CreateEngine(EngineConfig),
    PullSample,
    Process { block: Seq<Seq<u32>>, final_block: bool },
    QueryAvailable,
    Retrieve { buffer: Seq<Seq<u32>> },
    Deliver(Option<u32>),
    Fault(StretchError),
}

impl View for Request {
    type V = Instruction;

    open spec fn view(&self) -> Instruction {
        match *self {
            Request::InspectUpstream => Instruction::InspectUpstream,
            Request::CreateEngine(config) => Instruction::CreateEngine(config),
            Request::PullSample => Instruction::PullSample,
            Request::Process { block, final_block } => Instruction::Process {
                block: block@,
                final_block,
            },
            Request::QueryAvailable => Instruction::QueryAvailable,
            Request::Retrieve { buffer } => Instruction::Retrieve { buffer: buffer@ },
            Request::Deliver(sample) => Instruction::Deliver(sample),
            Request::Fault(error) => Instruction::Fault(error),
        }
    }
}

} // verus!
