use crate::buffer::{deinterleave, interleave, silence};
use crate::engine::{replacement_for, EngineConfig, RATIO_ONE, RATIO_THREE_HALVES};
use crate::error::StretchError;
use crate::options::RubberBandOption;
use crate::protocol::{Instruction, Phase, Reply};
use vstd::prelude::*;

verus! {

/// The most interleaved samples that one feed step takes from upstream.
pub const INPUT_BUFFER_SIZE: usize = 2048;

/// The stretched output that feeding aims at before it lets the engine be
/// drained.
pub const HIGH_WATER_MARK: i32 = 40960;

/// The adapter's state.
pub struct SourceState {
    /// The options that every engine of this stream is created with.
    pub options: RubberBandOption,
    /// The configuration of the engine in use.
    pub engine: EngineConfig,
    /// Stretched samples, interleaved, that wait for the consumer.
    pub queue: Seq<u32>,
    /// The frames that are left of upstream's current frame, if it told.
    pub frame_left: Option<usize>,
    /// The samples taken from upstream in the feed step under way.
    pub batch: Seq<u32>,
    /// The number of samples that the feed step under way aims at.
    pub target: usize,
    /// Upstream has ended.
    pub upstream_done: bool,
    /// The stream has ended: every pull from now on yields nothing.
    pub exhausted: bool,
    pub phase: Phase,
}

/// What holds of the state between any two steps.
pub open spec fn well_formed(s: SourceState) -> bool {
    &&& s.engine.channels >= 1
    &&& (s.phase matches Phase::AwaitEngine(config) ==> config.channels >= 1)
    &&& (s.phase == Phase::AwaitSample ==> s.batch.len() < s.target && s.target == batch_target(
        s.frame_left,
        s.engine.channels,
    ))
    &&& (s.phase != Phase::AwaitSample ==> s.batch.len() == 0)
    &&& (s.phase != Phase::Idle ==> s.queue.len() == 0 && !s.exhausted)
    &&& (s.exhausted ==> s.queue.len() == 0)
    &&& (s.upstream_done ==> s.phase != Phase::AwaitUpstream && s.phase != Phase::AwaitSample
        && !(s.phase is AwaitEngine))
}

/// Where the stream stands, as its consumer sees it.
#[derive(Debug, Clone, Copy, PartialEq, Eq, Structural)]
pub enum Stage {
    /// Nothing is queued and nothing is under way.
    Empty,
    /// A replenishment is under way: upstream is pulled from, the engine is
    /// fed or drained.
    Filling,
    /// Stretched samples wait in the queue.
    Draining,
    /// The stream has ended for good.
    Exhausted,
}

/// The stage of a state.
pub open spec fn stage_of(s: SourceState) -> Stage {
    if s.exhausted {
        Stage::Exhausted
    } else if s.phase != Phase::Idle {
        Stage::Filling
    } else if s.queue.len() > 0 {
        Stage::Draining
    } else {
        Stage::Empty
    }
}

/// The state in which a stream starts.
pub open spec fn initial_state(
    channels: u16,
    sample_rate: u32,
    frame_len: Option<usize>,
    options: RubberBandOption,
) -> SourceState {
    SourceState {
        options,
        engine: EngineConfig {
            sample_rate,
            channels: channels as u32,
            options,
            time_ratio: RATIO_THREE_HALVES,
            pitch_scale: RATIO_ONE,
        },
        queue: Seq::empty(),
        frame_left: frame_len,
        batch: Seq::empty(),
        target: 0,
        upstream_done: false,
        exhausted: false,
        phase: Phase::Idle,
    }
}

/// The size of a feed step's batch: the fixed chunk, or what is left of
/// upstream's frame over all channels where that is less.
pub open spec fn batch_target(frame_left: Option<usize>, channels: u32) -> usize {
    match frame_left {
        None => INPUT_BUFFER_SIZE,
        Some(left) => if left * channels < INPUT_BUFFER_SIZE {
            (left * channels) as usize
        } else {
            INPUT_BUFFER_SIZE
        },
    }
}

/// What is left of upstream's frame after `used` more frames of it. A feed
/// step never uses more than are left.
pub open spec fn frames_after(frame_left: Option<usize>, used: int) -> Option<usize> {
    match frame_left {
        None => None,
        Some(left) => if used <= left {
            Some((left - used) as usize)
        } else {
            Some(0usize)
        },
    }
}

/// The interleaved samples that a retrieval of `count` samples for each
/// channel brought: the buffer's first `count` frames, or all of them where
/// it holds fewer.
pub open spec fn retrieved_samples(rows: Seq<Seq<u32>>, count: u32) -> Seq<u32> {
    let frames = if count <= rows[0].len() {
        count as int
    } else {
        rows[0].len() as int
    };
    interleave(rows).take(frames * rows.len())
}

/// A fatal error ends the stream.
pub open spec fn fatal(s: SourceState, error: StretchError) -> (SourceState, Instruction) {
    (
        SourceState { queue: Seq::empty(), batch: Seq::empty(), exhausted: true, phase: Phase::Idle, ..s },
        Instruction::Fault(error),
    )
}

/// The consumer pulls: the front of the queue where there is one, the end
/// of the stream once that was reached, else a replenishment starts.
pub open spec fn on_pull(s: SourceState) -> (SourceState, Instruction) {
    if s.queue.len() > 0 {
        (SourceState { queue: s.queue.drop_first(), ..s }, Instruction::Deliver(Some(s.queue[0])))
    } else if s.exhausted {
        (s, Instruction::Deliver(None))
    } else {
        (SourceState { phase: Phase::AwaitAvailable, ..s }, Instruction::QueryAvailable)
    }
}

/// The batch goes to the engine, as its last block if upstream has ended.
/// A batch that does not divide among the channels is a fatal error.
pub open spec fn submit(s: SourceState) -> (SourceState, Instruction) {
    let channels = s.engine.channels as int;
    if s.batch.len() as int % channels != 0 {
        fatal(
            s,
            StretchError::InvalidLayout {
                samples: s.batch.len() as usize,
                channels: s.engine.channels as usize,
            },
        )
    } else {
        (
            SourceState {
                frame_left: frames_after(s.frame_left, s.batch.len() as int / channels),
                batch: Seq::empty(),
                phase: Phase::AwaitProcessed,
                ..s
            },
            Instruction::Process {
                block: deinterleave(s.batch, channels),
                final_block: s.upstream_done,
            },
        )
    }
}

/// A feed step starts to take samples. Where upstream's frame leaves room
/// for none, upstream has ended, and the engine is given an empty last
/// block.
pub open spec fn start_pulling(s: SourceState) -> (SourceState, Instruction) {
    let target = batch_target(s.frame_left, s.engine.channels);
    if target == 0 {
        submit(SourceState { batch: Seq::empty(), target, upstream_done: true, ..s })
    } else {
        (
            SourceState { batch: Seq::empty(), target, phase: Phase::AwaitSample, ..s },
            Instruction::PullSample,
        )
    }
}

/// A feed step begins: at a frame boundary upstream's format is looked at
/// first.
pub open spec fn begin_feed(s: SourceState) -> (SourceState, Instruction) {
    if s.frame_left == Some(0usize) {
        (SourceState { phase: Phase::AwaitUpstream, ..s }, Instruction::InspectUpstream)
    } else {
        start_pulling(s)
    }
}

/// The engine's output is asked for: a zeroed buffer with the engine's
/// channels and room for all that the engine holds ready.
pub open spec fn retrieve(s: SourceState, available: i32) -> (SourceState, Instruction) {
    let size = if available > 0 {
        available as nat
    } else {
        0nat
    };
    (
        SourceState { phase: Phase::AwaitRetrieved, ..s },
        Instruction::Retrieve { buffer: silence(s.engine.channels as nat, size) },
    )
}

/// The engine told how much it holds ready. Feeding goes on until that
/// reaches `mark` or upstream has ended; then the engine is drained.
pub open spec fn on_available(s: SourceState, available: i32, mark: i32) -> (
    SourceState,
    Instruction,
) {
    if available >= mark || s.upstream_done {
        retrieve(s, available)
    } else {
        begin_feed(s)
    }
}

/// Upstream told its format at a frame boundary. Where its channel count
/// is not the engine's, another engine is asked for; a format that no
/// engine can have is a fatal error.
pub open spec fn on_upstream(
    s: SourceState,
    channels: u16,
    sample_rate: u32,
    frame_len: Option<usize>,
) -> (SourceState, Instruction) {
    let t = SourceState { frame_left: frame_len, ..s };
    if channels as u32 == s.engine.channels {
        start_pulling(t)
    } else if channels == 0 || sample_rate == 0 {
        fatal(t, StretchError::EngineCreation)
    } else {
        let config = replacement_for(sample_rate, channels as u32, s.options);
        (SourceState { phase: Phase::AwaitEngine(config), ..t }, Instruction::CreateEngine(config))
    }
}

/// The engine that was asked for has come, or has not: a fatal error.
pub open spec fn on_engine(s: SourceState, config: EngineConfig, created: bool) -> (
    SourceState,
    Instruction,
) {
    if created {
        start_pulling(SourceState { engine: config, ..s })
    } else {
        fatal(s, StretchError::EngineCreation)
    }
}

/// Upstream gave a sample, or has ended. The batch goes to the engine when
/// it is full or upstream has ended.
pub open spec fn on_sample(s: SourceState, sample: Option<u32>) -> (SourceState, Instruction) {
    match sample {
        Some(value) => {
            let t = SourceState { batch: s.batch.push(value), ..s };
            if t.batch.len() >= t.target {
                submit(t)
            } else {
                (t, Instruction::PullSample)
            }
        },
        None => submit(SourceState { upstream_done: true, ..s }),
    }
}

/// The engine's output joins the queue, and its front goes to the consumer.
/// Where nothing came, the stream has ended.
pub open spec fn on_retrieved(s: SourceState, rows: Seq<Seq<u32>>, count: u32) -> (
    SourceState,
    Instruction,
) {
    let queue = s.queue + retrieved_samples(rows, count);
    if queue.len() > 0 {
        (
            SourceState { queue: queue.drop_first(), phase: Phase::Idle, ..s },
            Instruction::Deliver(Some(queue[0])),
        )
    } else {
        (SourceState { exhausted: true, phase: Phase::Idle, ..s }, Instruction::Deliver(None))
    }
}

/// One step of the adapter: from its state and the driver's reply to its
/// next state and what the driver has to do next. A reply that the adapter
/// does not wait for changes nothing and is answered with a fault.
pub open spec fn transition(s: SourceState, reply: Reply) -> (SourceState, Instruction) {
    match (s.phase, reply) {
        (Phase::Idle, Reply::Pull) => on_pull(s),
        (Phase::AwaitAvailable, Reply::Available(available)) => on_available(s, available, 1),
        (Phase::AwaitProcessed, Reply::Available(available)) => on_available(
            s,
            available,
            HIGH_WATER_MARK,
        ),
        (Phase::AwaitUpstream, Reply::Upstream { channels, sample_rate, frame_len }) => on_upstream(
            s,
            channels,
            sample_rate,
            frame_len,
        ),
        (Phase::AwaitEngine(config), Reply::EngineCreated) => on_engine(s, config, true),
        (Phase::AwaitEngine(config), Reply::EngineFailed) => on_engine(s, config, false),
        (Phase::AwaitSample, Reply::Sample(sample)) => on_sample(s, sample),
        (Phase::AwaitRetrieved, Reply::Retrieved { buffer, count }) => on_retrieved(
            s,
            buffer@,
            count,
        ),
        _ => (s, Instruction::Fault(StretchError::UnexpectedReply)),
    }
}

/// A step leads from a well-formed state to a well-formed state.
pub proof fn lemma_transition_keeps_well_formed(s: SourceState, reply: Reply)
    requires
        well_formed(s),
    ensures
        well_formed(transition(s, reply).0),
{
}

} // verus!
