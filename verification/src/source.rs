use crate::buffer::AudioBuffer;
use crate::engine::EngineConfig;
use crate::error::StretchError;
use crate::model::{
    batch_target, begin_feed, fatal, initial_state, lemma_transition_keeps_well_formed,
    on_available, on_engine, on_pull, on_retrieved, on_sample, on_upstream, retrieved_samples,
    stage_of, start_pulling, submit, transition, well_formed, SourceState, Stage,
    HIGH_WATER_MARK, INPUT_BUFFER_SIZE,
};
use crate::options::RubberBandOption;
use crate::protocol::{Phase, Reply, Request};
use std::collections::VecDeque;
use vstd::prelude::*;

verus! {

/// The fields of an adapter. A step takes them well-formed and leaves them
/// well-formed.
struct Adapter {
    rubberband_options: RubberBandOption,
    rubberband: EngineConfig,
    buffer: VecDeque<u32>,
    frame_len_left: Option<usize>,
    batch: Vec<u32>,
    input_size: usize,
    upstream_done: bool,
    exhausted: bool,
    phase: Phase,
}

impl View for Adapter {
    type V = SourceState;

    closed spec fn view(&self) -> SourceState {
        SourceState {
            options: self.rubberband_options,
            engine: self.rubberband,
            queue: self.buffer@,
            frame_left: self.frame_len_left,
            batch: self.batch@,
            target: self.input_size,
            upstream_done: self.upstream_done,
            exhausted: self.exhausted,
            phase: self.phase,
        }
    }
}

impl Adapter {
    /// The fields of a stream that starts.
    fn start(
        channels: u16,
        sample_rate: u32,
        frame_len: Option<usize>,
        rubberband_options: RubberBandOption,
    ) -> (adapter: Adapter)
        requires
            channels >= 1,
        ensures
            well_formed(adapter@),
            adapter@ == initial_state(channels, sample_rate, frame_len, rubberband_options),
    {
        let adapter = Adapter {
            rubberband_options,
            rubberband: EngineConfig::initial(sample_rate, channels as u32, rubberband_options),
            buffer: VecDeque::new(),
            frame_len_left: frame_len,
            batch: Vec::new(),
            input_size: 0,
            upstream_done: false,
            exhausted: false,
            phase: Phase::Idle,
        };
        assert(adapter@.queue =~= Seq::empty());
        assert(adapter@.batch =~= Seq::empty());
        adapter
    }

    /// A fatal error ends the stream.
    fn fail(&mut self, error: StretchError) -> (request: Request)
        ensures
            (final(self)@, request@) == fatal(old(self)@, error),
    {
        self.buffer.clear();
        self.batch.clear();
        self.exhausted = true;
        self.phase = Phase::Idle;
        assert(self@.queue =~= Seq::empty());
        assert(self@.batch =~= Seq::empty());
        Request::Fault(error)
    }

    /// The consumer's pull.
    fn next(&mut self) -> (request: Request)
        ensures
            (final(self)@, request@) == on_pull(old(self)@),
    {
        if self.buffer.len() > 0 {
            let sample = self.buffer.pop_front();
            assert(self@.queue =~= old(self)@.queue.drop_first());
            Request::Deliver(sample)
        } else if self.exhausted {
            Request::Deliver(None)
        } else {
            self.phase = Phase::AwaitAvailable;
            Request::QueryAvailable
        }
    }

    /// The size of the next batch.
    fn next_input_size(&self) -> (size: usize)
        requires
            self@.engine.channels >= 1,
        ensures
            size == batch_target(self@.frame_left, self@.engine.channels),
    {
        match self.frame_len_left {
            None => INPUT_BUFFER_SIZE,
            Some(left) => {
                let channels: u32 = self.rubberband.channels;
                if left >= INPUT_BUFFER_SIZE {
                    assert(left * channels >= INPUT_BUFFER_SIZE) by (nonlinear_arith)
                        requires
                            left >= INPUT_BUFFER_SIZE,
                            channels >= 1,
                    ;
                    INPUT_BUFFER_SIZE
                } else {
                    assert(left * channels <= 2047 * 0xffff_ffff) by (nonlinear_arith)
                        requires
                            0 <= left < 2048,
                            0 <= channels <= 0xffff_ffff,
                    ;
                    let product: u64 = (left as u64) * (channels as u64);
                    if product < INPUT_BUFFER_SIZE as u64 {
                        product as usize
                    } else {
                        INPUT_BUFFER_SIZE
                    }
                }
            },
        }
    }

    /// The batch goes to the engine.
    fn try_process_rubberband(&mut self) -> (request: Request)
        requires
            old(self)@.engine.channels >= 1,
        ensures
            (final(self)@, request@) == submit(old(self)@),
    {
        let channels: u32 = self.rubberband.channels;
        match AudioBuffer::from_interleafed(channels, self.batch.as_slice()) {
            Ok(block) => {
                let used: usize = self.batch.len() / (channels as usize);
                let frame_len_left: Option<usize> = match self.frame_len_left {
                    None => None,
                    Some(left) => if used <= left {
                        Some(left - used)
                    } else {
                        Some(0)
                    },
                };
                self.frame_len_left = frame_len_left;
                self.batch.clear();
                self.phase = Phase::AwaitProcessed;
                assert(self@.batch =~= Seq::empty());
                Request::Process { block, final_block: self.upstream_done }
            },
            Err(error) => self.fail(error),
        }
    }

    /// A feed step starts to take samples.
    fn start_feed(&mut self) -> (request: Request)
        requires
            old(self)@.engine.channels >= 1,
        ensures
            (final(self)@, request@) == start_pulling(old(self)@),
    {
        let target: usize = self.next_input_size();
        self.batch.clear();
        self.input_size = target;
        assert(self@.batch =~= Seq::empty());
        if target == 0 {
            self.upstream_done = true;
            self.try_process_rubberband()
        } else {
            self.phase = Phase::AwaitSample;
            Request::PullSample
        }
    }

    /// A feed step begins.
    fn feed(&mut self) -> (request: Request)
        requires
            old(self)@.engine.channels >= 1,
        ensures
            (final(self)@, request@) == begin_feed(old(self)@),
    {
        match self.frame_len_left {
            Some(0) => {
                self.phase = Phase::AwaitUpstream;
                Request::InspectUpstream
            },
            _ => self.start_feed(),
        }
    }

    /// The engine told how much it holds ready.
    fn available(&mut self, available: i32, mark: i32) -> (request: Request)
        requires
            old(self)@.engine.channels >= 1,
        ensures
            (final(self)@, request@) == on_available(old(self)@, available, mark),
    {
        if available >= mark || self.upstream_done {
            let size: usize = if available > 0 {
                available as usize
            } else {
                0
            };
            self.phase = Phase::AwaitRetrieved;
            Request::Retrieve { buffer: AudioBuffer::new_sized(self.rubberband.channels, size) }
        } else {
            self.feed()
        }
    }

    /// Upstream told its format at a frame boundary.
    fn recreate_rubberband_if_necessary(
        &mut self,
        channels: u16,
        sample_rate: u32,
        frame_len: Option<usize>,
    ) -> (request: Request)
        requires
            old(self)@.engine.channels >= 1,
        ensures
            (final(self)@, request@) == on_upstream(old(self)@, channels, sample_rate, frame_len),
    {
        self.frame_len_left = frame_len;
        if channels as u32 == self.rubberband.channels {
            self.start_feed()
        } else if channels == 0 || sample_rate == 0 {
            self.fail(StretchError::EngineCreation)
        } else {
            let config = EngineConfig::replacement(
                sample_rate,
                channels as u32,
                self.rubberband_options,
            );
            self.phase = Phase::AwaitEngine(config);
            Request::CreateEngine(config)
        }
    }

    /// The engine that was asked for has come, or has not.
    fn engine_replaced(&mut self, config: EngineConfig, created: bool) -> (request: Request)
        requires
            config.channels >= 1,
        ensures
            (final(self)@, request@) == on_engine(old(self)@, config, created),
    {
        if created {
            self.rubberband = config;
            self.start_feed()
        } else {
            self.fail(StretchError::EngineCreation)
        }
    }

    /// Upstream gave a sample, or has ended.
    fn sample(&mut self, sample: Option<u32>) -> (request: Request)
        requires
            old(self)@.engine.channels >= 1,
        ensures
            (final(self)@, request@) == on_sample(old(self)@, sample),
    {
        match sample {
            Some(value) => {
                self.batch.push(value);
                if self.batch.len() >= self.input_size {
                    self.try_process_rubberband()
                } else {
                    Request::PullSample
                }
            },
            None => {
                self.upstream_done = true;
                self.try_process_rubberband()
            },
        }
    }

    /// The engine's output joins the queue.
    fn try_retrieve_rubberband(&mut self, buffer: AudioBuffer, count: u32) -> (request: Request)
        ensures
            (final(self)@, request@) == on_retrieved(old(self)@, buffer@, count),
    {
        let channels: usize = buffer.num_channels();
        let held: usize = buffer.num_samples();
        let frames: usize = if count as usize <= held {
            count as usize
        } else {
            held
        };
        let interleaved_buffer = buffer.to_interleaved();
        assert(frames * channels <= held * channels) by (nonlinear_arith)
            requires
                frames <= held,
                channels >= 0,
        ;
        assert(held * channels == channels * held) by (nonlinear_arith);
        let total: usize = interleaved_buffer.len();
        assert(total == channels * held);
        let keep: usize = frames * channels;
        let ghost before = self.buffer@;
        let mut i: usize = 0;
        while i < keep
            invariant
                i <= keep <= interleaved_buffer@.len(),
                self.buffer@ == before + interleaved_buffer@.take(i as int),
                self.rubberband_options == old(self).rubberband_options,
                self.rubberband == old(self).rubberband,
                self.frame_len_left == old(self).frame_len_left,
                self.batch == old(self).batch,
                self.input_size == old(self).input_size,
                self.upstream_done == old(self).upstream_done,
                self.exhausted == old(self).exhausted,
                self.phase == old(self).phase,
            decreases keep - i,
        {
            self.buffer.push_back(interleaved_buffer[i]);
            assert(interleaved_buffer@.take(i as int).push(interleaved_buffer@[i as int])
                =~= interleaved_buffer@.take(i as int + 1));
            i += 1;
        }
        assert(self.buffer@ == old(self)@.queue + retrieved_samples(buffer@, count));
        self.phase = Phase::Idle;
        if self.buffer.len() > 0 {
            let ghost queue = self.buffer@;
            let sample = self.buffer.pop_front();
            assert(self@.queue =~= queue.drop_first());
            Request::Deliver(sample)
        } else {
            self.exhausted = true;
            Request::Deliver(None)
        }
    }

    /// One step, by the reply and by what the adapter waits for.
    fn step(&mut self, reply: Reply) -> (request: Request)
        requires
            well_formed(old(self)@),
        ensures
            well_formed(final(self)@),
            (final(self)@, request@) == transition(old(self)@, reply),
    {
        let phase = self.phase;
        let request = match reply {
            Reply::Pull => match phase {
                Phase::Idle => self.next(),
                _ => Request::Fault(StretchError::UnexpectedReply),
            },
            Reply::Available(available) => match phase {
                Phase::AwaitAvailable => self.available(available, 1),
                Phase::AwaitProcessed => self.available(available, HIGH_WATER_MARK),
                _ => Request::Fault(StretchError::UnexpectedReply),
            },
            Reply::Upstream { channels, sample_rate, frame_len } => match phase {
                Phase::AwaitUpstream => self.recreate_rubberband_if_necessary(
                    channels,
                    sample_rate,
                    frame_len,
                ),
                _ => Request::Fault(StretchError::UnexpectedReply),
            },
            Reply::EngineCreated => match phase {
                Phase::AwaitEngine(config) => self.engine_replaced(config, true),
                _ => Request::Fault(StretchError::UnexpectedReply),
            },
            Reply::EngineFailed => match phase {
                Phase::AwaitEngine(config) => self.engine_replaced(config, false),
                _ => Request::Fault(StretchError::UnexpectedReply),
            },
            Reply::Sample(sample) => match phase {
                Phase::AwaitSample => self.sample(sample),
                _ => Request::Fault(StretchError::UnexpectedReply),
            },
            Reply::Retrieved { buffer, count } => match phase {
                Phase::AwaitRetrieved => self.try_retrieve_rubberband(buffer, count),
                _ => Request::Fault(StretchError::UnexpectedReply),
            },
        };
        proof {
            lemma_transition_keeps_well_formed(old(self)@, reply);
        }
        request
    }
}

/// A pull-driven stream of stretched samples over a pull-driven stream of
/// samples. The adapter decides; a driver pulls from upstream and calls the
/// engine as the adapter asks, and hands back what came of it.
pub struct RubberBandSource {
    core: Adapter,
}

impl View for RubberBandSource {
    type V = SourceState;

    closed spec fn view(&self) -> SourceState {
        self.core@
    }
}

impl RubberBandSource {
    #[verifier::type_invariant]
    spec fn holds(self) -> bool {
        well_formed(self.core@)
    }

    /// The adapter for an upstream of the given format. There is none for a
    /// format that no engine can have: no channel, or a sample rate of
    /// zero. The driver creates the engine that `engine` describes, and
    /// lets go of the adapter where it cannot.
    pub fn new(
        channels: u16,
        sample_rate: u32,
        frame_len: Option<usize>,
        rubberband_options: RubberBandOption,
    ) -> (result: Result<RubberBandSource, StretchError>)
        ensures
            result is Ok <==> channels >= 1 && sample_rate >= 1,
            result matches Ok(source) ==> well_formed(source@) && source@ == initial_state(
                channels,
                sample_rate,
                frame_len,
                rubberband_options,
            ),
            result matches Ok(source) ==> stage_of(source@) == Stage::Empty,
            result matches Err(error) ==> error == StretchError::EngineCreation,
    {
        if channels == 0 || sample_rate == 0 {
            return Err(StretchError::EngineCreation);
        }
        let core = Adapter::start(channels, sample_rate, frame_len, rubberband_options);
        Ok(RubberBandSource { core })
    }

    /// The configuration of the engine in use.
    pub fn engine(&self) -> (config: EngineConfig)
        ensures
            config == self@.engine,
            config.channels >= 1,
    {
        proof {
            use_type_invariant(self);
        }
        self.core.rubberband
    }

    /// Whether the stream has ended.
    pub fn is_exhausted(&self) -> (answer: bool)
        ensures
            answer == self@.exhausted,
    {
        self.core.exhausted
    }

    /// The number of stretched samples that wait for the consumer.
    pub fn queued(&self) -> (n: usize)
        ensures
            n == self@.queue.len(),
    {
        self.core.buffer.len()
    }

    /// Where the stream stands.
    pub fn stage(&self) -> (stage: Stage)
        ensures
            stage == stage_of(self@),
            well_formed(self@),
    {
        proof {
            use_type_invariant(self);
        }
        if self.core.exhausted {
            Stage::Exhausted
        } else {
            match self.core.phase {
                Phase::Idle => if self.core.buffer.len() > 0 {
                    Stage::Draining
                } else {
                    Stage::Empty
                },
                _ => Stage::Filling,
            }
        }
    }

    /// What the adapter waits for.
    pub fn phase(&self) -> (phase: Phase)
        ensures
            phase == self@.phase,
    {
        self.core.phase
    }

    /// One step: takes the driver's reply and says what the driver has to
    /// do next. The consumer's pull is the reply `Pull`; the step that
    /// answers `Deliver` ends it. Every adapter is well-formed, before the
    /// step and after it.
    pub fn step(&mut self, reply: Reply) -> (request: Request)
        ensures
            well_formed(old(self)@),
            well_formed(final(self)@),
            (final(self)@, request@) == transition(old(self)@, reply),
    {
        proof {
            use_type_invariant(&*self);
        }
        let mut core = Adapter::start(1, 1, None, self.core.rubberband_options);
        core::mem::swap(&mut core, &mut self.core);
        let request = core.step(reply);
        self.core = core;
        request
    }
}

} // verus!
