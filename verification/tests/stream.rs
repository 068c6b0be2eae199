use rubberband_rs::buffer::AudioBuffer;
use rubberband_rs::engine::{EngineConfig, RATIO_ONE, RATIO_THREE_HALVES};
use rubberband_rs::error::StretchError;
use rubberband_rs::options::{RubberBandOption, ENGINE_FINER, PROCESS_REAL_TIME};
use rubberband_rs::model::{Stage, HIGH_WATER_MARK, INPUT_BUFFER_SIZE};
use rubberband_rs::protocol::{Phase, Reply, Request};
use rubberband_rs::source::RubberBandSource;

/// An upstream made of frames, each with its channel count and its
/// interleaved samples.
struct Upstream {
    frames: Vec<(u16, Vec<u32>)>,
    frame: usize,
    at: usize,
    sample_rate: u32,
    reports_frame_len: bool,
    pulls: usize,
}

impl Upstream {
    fn new(frames: Vec<(u16, Vec<u32>)>, reports_frame_len: bool) -> Upstream {
        Upstream { frames, frame: 0, at: 0, sample_rate: 44100, reports_frame_len, pulls: 0 }
    }

    fn settle(&mut self) {
        while self.frame + 1 < self.frames.len() && self.at >= self.frames[self.frame].1.len() {
            self.frame += 1;
            self.at = 0;
        }
    }

    fn channels(&mut self) -> u16 {
        self.settle();
        self.frames[self.frame].0
    }

    fn current_frame_len(&mut self) -> Option<usize> {
        self.settle();
        if self.reports_frame_len {
            let (channels, samples) = &self.frames[self.frame];
            Some((samples.len() - self.at) / (*channels as usize))
        } else {
            None
        }
    }

    fn next(&mut self) -> Option<u32> {
        self.settle();
        self.pulls += 1;
        let samples = &self.frames[self.frame].1;
        if self.at < samples.len() {
            self.at += 1;
            Some(samples[self.at - 1])
        } else {
            None
        }
    }
}

/// An engine that hands its input out again, each frame `repeat` times,
/// and holds back `latency` frames until it was given its last block.
struct Engine {
    config: EngineConfig,
    ready: Vec<Vec<u32>>,
    latency: usize,
    repeat: usize,
    finished: bool,
    blocks: Vec<(usize, bool)>,
    retrievals: Vec<usize>,
    fail_creation: bool,
    created: Vec<EngineConfig>,
}

impl Engine {
    fn new(config: EngineConfig, latency: usize, repeat: usize) -> Engine {
        Engine {
            config,
            ready: vec![Vec::new(); config.channels as usize],
            latency,
            repeat,
            finished: false,
            blocks: Vec::new(),
            retrievals: Vec::new(),
            fail_creation: false,
            created: Vec::new(),
        }
    }

    fn recreate(&mut self, config: EngineConfig) -> bool {
        self.created.push(config);
        if self.fail_creation {
            return false;
        }
        self.config = config;
        self.ready = vec![Vec::new(); config.channels as usize];
        self.finished = false;
        true
    }

    fn process(&mut self, block: &AudioBuffer, final_block: bool) {
        assert_eq!(block.num_channels(), self.config.channels as usize);
        self.blocks.push((block.num_samples() * block.num_channels(), final_block));
        for c in 0..block.num_channels() {
            for sample in block.channel(c) {
                for _ in 0..self.repeat {
                    self.ready[c].push(*sample);
                }
            }
        }
        self.finished = self.finished || final_block;
    }

    fn available(&self) -> i32 {
        let held = self.ready[0].len();
        if self.finished {
            held as i32
        } else {
            held.saturating_sub(self.latency) as i32
        }
    }

    fn retrieve(&mut self, buffer: &AudioBuffer) -> (AudioBuffer, u32) {
        let count = (self.available() as usize).min(buffer.num_samples());
        self.retrievals.push(buffer.num_samples());
        let mut rows = Vec::new();
        for c in 0..buffer.num_channels() {
            let mut row: Vec<u32> = self.ready[c].drain(..count).collect();
            row.resize(buffer.num_samples(), 0);
            rows.push(row);
        }
        (AudioBuffer::from_channels(rows).unwrap(), count as u32)
    }
}

/// One pull of the consumer: the driver's loop.
fn pull(
    source: &mut RubberBandSource,
    upstream: &mut Upstream,
    engine: &mut Engine,
) -> Result<Option<u32>, StretchError> {
    let mut reply = Reply::Pull;
    loop {
        reply = match source.step(reply) {
            Request::InspectUpstream => Reply::Upstream {
                channels: upstream.channels(),
                sample_rate: upstream.sample_rate,
                frame_len: upstream.current_frame_len(),
            },
            Request::CreateEngine(config) => {
                if engine.recreate(config) {
                    Reply::EngineCreated
                } else {
                    Reply::EngineFailed
                }
            }
            Request::PullSample => Reply::Sample(upstream.next()),
            Request::Process { block, final_block } => {
                engine.process(&block, final_block);
                Reply::Available(engine.available())
            }
            Request::QueryAvailable => Reply::Available(engine.available()),
            Request::Retrieve { buffer } => {
                let (buffer, count) = engine.retrieve(&buffer);
                Reply::Retrieved { buffer, count }
            }
            Request::Deliver(sample) => return Ok(sample),
            Request::Fault(error) => return Err(error),
        };
    }
}

fn start(upstream: &mut Upstream, latency: usize, repeat: usize) -> (RubberBandSource, Engine) {
    let source = RubberBandSource::new(
        upstream.channels(),
        upstream.sample_rate,
        upstream.current_frame_len(),
        RubberBandOption::percussive_options(),
    )
    .unwrap();
    let engine = Engine::new(source.engine(), latency, repeat);
    (source, engine)
}

fn ramp(len: usize) -> Vec<u32> {
    (0..len).map(|i| i as u32 + 1).collect()
}

#[test]
fn new_describes_the_first_engine() {
    let options = RubberBandOption::from_bits(PROCESS_REAL_TIME | ENGINE_FINER).unwrap();
    let source = RubberBandSource::new(2, 48000, None, options).unwrap();
    let config = source.engine();
    assert_eq!(config.sample_rate, 48000);
    assert_eq!(config.channels, 2);
    assert_eq!(config.options, options);
    assert_eq!(config.time_ratio, RATIO_THREE_HALVES);
    assert_eq!(config.pitch_scale, RATIO_ONE);
    assert_eq!(source.phase(), Phase::Idle);
    assert_eq!(source.queued(), 0);
    assert!(!source.is_exhausted());
}

#[test]
fn no_adapter_without_an_engine() {
    let options = RubberBandOption::empty();
    assert!(matches!(
        RubberBandSource::new(0, 44100, None, options),
        Err(StretchError::EngineCreation)
    ));
    assert!(matches!(
        RubberBandSource::new(2, 0, Some(10), options),
        Err(StretchError::EngineCreation)
    ));
    assert!(RubberBandSource::new(1, 1, Some(0), options).is_ok());
}

#[test]
fn fixed_chunk_and_high_water_mark() {
    assert_eq!(INPUT_BUFFER_SIZE, 2048);
    assert_eq!(HIGH_WATER_MARK, 40960);
}

#[test]
fn four_thousand_samples_take_two_feed_steps() {
    let data = ramp(4000);
    let mut upstream = Upstream::new(vec![(2, data.clone())], false);
    let (mut source, mut engine) = start(&mut upstream, 512, 1);
    let mut out = Vec::new();
    while let Some(sample) = pull(&mut source, &mut upstream, &mut engine).unwrap() {
        out.push(sample);
    }
    assert_eq!(engine.blocks, vec![(2048, false), (1952, true)]);
    assert_eq!(engine.retrievals, vec![2000, 0]);
    assert_eq!(upstream.pulls, 4001);
    assert_eq!(out, data);
    assert!(source.is_exhausted());
    for _ in 0..10 {
        assert_eq!(pull(&mut source, &mut upstream, &mut engine), Ok(None));
    }
    assert_eq!(upstream.pulls, 4001);
    assert_eq!(engine.blocks.len(), 2);
    assert_eq!(engine.retrievals.len(), 2);
}

#[test]
fn the_last_block_flushes_the_latency() {
    let data = ramp(100);
    let mut upstream = Upstream::new(vec![(1, data.clone())], false);
    let (mut source, mut engine) = start(&mut upstream, 1000, 1);
    let mut out = Vec::new();
    while let Some(sample) = pull(&mut source, &mut upstream, &mut engine).unwrap() {
        out.push(sample);
    }
    assert_eq!(engine.blocks, vec![(100, true)]);
    assert_eq!(out, data);
}

#[test]
fn an_empty_upstream_ends_at_once() {
    let mut upstream = Upstream::new(vec![(2, vec![])], false);
    let (mut source, mut engine) = start(&mut upstream, 0, 1);
    assert_eq!(pull(&mut source, &mut upstream, &mut engine), Ok(None));
    assert!(source.is_exhausted());
    assert_eq!(engine.blocks, vec![(0, true)]);
    assert_eq!(pull(&mut source, &mut upstream, &mut engine), Ok(None));
    assert_eq!(upstream.pulls, 1);
}

#[test]
fn feeding_stops_at_the_high_water_mark() {
    let frames = 100_000usize;
    let mut upstream = Upstream::new(vec![(1, ramp(frames))], false);
    let (mut source, mut engine) = start(&mut upstream, 0, 2);
    assert_eq!(pull(&mut source, &mut upstream, &mut engine), Ok(Some(1)));
    // Each block of 2048 samples brings 4096: ten blocks reach the mark.
    assert_eq!(engine.blocks, vec![(2048, false); 10]);
    assert_eq!(engine.retrievals, vec![40960]);
    assert_eq!(source.queued(), 40959);
    assert_eq!(upstream.pulls, 20480);
}

#[test]
fn the_queue_drains_one_sample_at_a_time() {
    let mut upstream = Upstream::new(vec![(2, ramp(6000))], false);
    let (mut source, mut engine) = start(&mut upstream, 0, 1);
    let mut delivered = Vec::new();
    loop {
        let before = source.queued();
        let retrievals = engine.retrievals.len();
        match pull(&mut source, &mut upstream, &mut engine).unwrap() {
            Some(sample) => {
                delivered.push(sample);
                if engine.retrievals.len() == retrievals {
                    assert_eq!(source.queued(), before - 1);
                } else {
                    assert_eq!(before, 0);
                }
            }
            None => break,
        }
    }
    assert_eq!(delivered, ramp(6000));
}

#[test]
fn stretched_output_comes_out_in_order() {
    let mut upstream = Upstream::new(vec![(2, vec![1, 2, 3, 4])], false);
    let (mut source, mut engine) = start(&mut upstream, 0, 2);
    let mut out = Vec::new();
    while let Some(sample) = pull(&mut source, &mut upstream, &mut engine).unwrap() {
        out.push(sample);
    }
    assert_eq!(out, vec![1, 2, 1, 2, 3, 4, 3, 4]);
}

#[test]
fn the_engine_is_replaced_once_when_the_channel_count_changes() {
    let first = ramp(200);
    let second: Vec<u32> = (0..300).map(|i| 1000 + i as u32).collect();
    let mut upstream = Upstream::new(vec![(2, first.clone()), (1, second.clone())], true);
    let (mut source, mut engine) = start(&mut upstream, 0, 1);
    assert_eq!(engine.config.channels, 2);
    let mut out = Vec::new();
    while let Some(sample) = pull(&mut source, &mut upstream, &mut engine).unwrap() {
        out.push(sample);
        if out.len() <= first.len() {
            assert_eq!(source.engine().channels, if engine.created.is_empty() { 2 } else { 1 });
        }
    }
    assert_eq!(engine.created.len(), 1);
    let config = engine.created[0];
    assert_eq!(config.channels, 1);
    assert_eq!(config.sample_rate, 44100);
    assert_eq!(config.options, RubberBandOption::percussive_options());
    assert_eq!(config.time_ratio, RATIO_ONE);
    assert_eq!(config.pitch_scale, RATIO_ONE);
    assert_eq!(source.engine(), config);
    assert!(source.is_exhausted());
}

#[test]
fn the_engine_is_replaced_at_the_first_feed_step_after_the_boundary() {
    let mut upstream = Upstream::new(vec![(2, ramp(8)), (1, vec![50, 51, 52])], true);
    let mut source = RubberBandSource::new(2, 44100, Some(4), RubberBandOption::empty()).unwrap();
    assert!(matches!(source.step(Reply::Pull), Request::QueryAvailable));
    assert!(matches!(source.step(Reply::Available(0)), Request::PullSample));
    for _ in 0..7 {
        let sample = upstream.next();
        assert!(matches!(source.step(Reply::Sample(sample)), Request::PullSample));
    }
    let sample = upstream.next();
    match source.step(Reply::Sample(sample)) {
        Request::Process { block, final_block } => {
            assert_eq!(block.to_interleaved(), ramp(8));
            assert!(!final_block);
        }
        other => panic!("unexpected request {:?}", other),
    }
    // The frame is used up: the next feed step looks at upstream first.
    assert!(matches!(source.step(Reply::Available(0)), Request::InspectUpstream));
    let config = match source.step(Reply::Upstream {
        channels: upstream.channels(),
        sample_rate: 44100,
        frame_len: upstream.current_frame_len(),
    }) {
        Request::CreateEngine(config) => config,
        other => panic!("unexpected request {:?}", other),
    };
    assert_eq!(config, EngineConfig::replacement(44100, 1, RubberBandOption::empty()));
    assert_eq!(source.engine().channels, 2);
    assert!(matches!(source.step(Reply::EngineCreated), Request::PullSample));
    assert_eq!(source.engine(), config);
    for _ in 0..2 {
        let sample = upstream.next();
        assert!(matches!(source.step(Reply::Sample(sample)), Request::PullSample));
    }
    let sample = upstream.next();
    match source.step(Reply::Sample(sample)) {
        Request::Process { block, final_block } => {
            assert_eq!(block.num_channels(), 1);
            assert_eq!(block.to_interleaved(), vec![50, 51, 52]);
            assert!(!final_block);
        }
        other => panic!("unexpected request {:?}", other),
    }
    // Same channel count at the next boundary: no other engine.
    assert!(matches!(source.step(Reply::Available(0)), Request::InspectUpstream));
    match source.step(Reply::Upstream { channels: 1, sample_rate: 44100, frame_len: Some(0) }) {
        Request::Process { block, final_block } => {
            assert_eq!(block.num_samples(), 0);
            assert!(final_block);
        }
        other => panic!("unexpected request {:?}", other),
    }
}

#[test]
fn a_stable_channel_count_keeps_the_engine() {
    let mut upstream =
        Upstream::new(vec![(2, ramp(100)), (2, ramp(60)), (2, ramp(20))], true);
    let (mut source, mut engine) = start(&mut upstream, 0, 1);
    let mut out = Vec::new();
    while let Some(sample) = pull(&mut source, &mut upstream, &mut engine).unwrap() {
        out.push(sample);
    }
    assert!(engine.created.is_empty());
    assert_eq!(engine.blocks, vec![(100, false), (60, false), (20, false), (0, true)]);
    let mut expected = ramp(100);
    expected.extend(ramp(60));
    expected.extend(ramp(20));
    assert_eq!(out, expected);
}

#[test]
fn the_batch_is_bounded_by_the_frame() {
    let mut source = RubberBandSource::new(2, 44100, Some(3), RubberBandOption::empty()).unwrap();
    assert!(matches!(source.step(Reply::Pull), Request::QueryAvailable));
    assert!(matches!(source.step(Reply::Available(0)), Request::PullSample));
    for i in 0..5 {
        assert!(matches!(source.step(Reply::Sample(Some(i))), Request::PullSample));
    }
    match source.step(Reply::Sample(Some(5))) {
        Request::Process { block, final_block } => {
            assert_eq!(block.channel(0), &vec![0, 2, 4]);
            assert_eq!(block.channel(1), &vec![1, 3, 5]);
            assert!(!final_block);
        }
        other => panic!("unexpected request {:?}", other),
    }
}

#[test]
fn the_batch_is_bounded_by_the_fixed_chunk() {
    let mut source =
        RubberBandSource::new(2, 44100, Some(5000), RubberBandOption::empty()).unwrap();
    assert!(matches!(source.step(Reply::Pull), Request::QueryAvailable));
    assert!(matches!(source.step(Reply::Available(0)), Request::PullSample));
    for i in 0..2047 {
        assert!(matches!(source.step(Reply::Sample(Some(i))), Request::PullSample));
    }
    match source.step(Reply::Sample(Some(2047))) {
        Request::Process { block, final_block } => {
            assert_eq!(block.num_channels(), 2);
            assert_eq!(block.num_samples(), 1024);
            assert!(!final_block);
        }
        other => panic!("unexpected request {:?}", other),
    }
}

#[test]
fn a_failed_replacement_is_fatal() {
    let mut upstream = Upstream::new(vec![(2, ramp(20)), (1, ramp(20))], true);
    let (mut source, mut engine) = start(&mut upstream, 0, 1);
    engine.latency = 1000;
    engine.fail_creation = true;
    assert_eq!(
        pull(&mut source, &mut upstream, &mut engine),
        Err(StretchError::EngineCreation)
    );
    assert_eq!(engine.created.len(), 1);
    assert_eq!(source.engine().channels, 2);
    assert!(source.is_exhausted());
    assert_eq!(pull(&mut source, &mut upstream, &mut engine), Ok(None));
    assert_eq!(engine.created.len(), 1);
}

#[test]
fn a_format_without_channels_is_fatal() {
    let mut source = RubberBandSource::new(2, 44100, Some(0), RubberBandOption::empty()).unwrap();
    assert!(matches!(source.step(Reply::Pull), Request::QueryAvailable));
    assert!(matches!(source.step(Reply::Available(0)), Request::InspectUpstream));
    let request =
        source.step(Reply::Upstream { channels: 0, sample_rate: 44100, frame_len: None });
    assert!(matches!(request, Request::Fault(StretchError::EngineCreation)));
    assert!(source.is_exhausted());
    assert!(matches!(source.step(Reply::Pull), Request::Deliver(None)));
}

#[test]
fn a_partial_frame_at_the_end_is_fatal() {
    let mut upstream = Upstream::new(vec![(2, vec![1, 2, 3])], false);
    let (mut source, mut engine) = start(&mut upstream, 0, 1);
    assert_eq!(
        pull(&mut source, &mut upstream, &mut engine),
        Err(StretchError::InvalidLayout { samples: 3, channels: 2 })
    );
    assert!(engine.blocks.is_empty());
    assert!(source.is_exhausted());
    assert_eq!(pull(&mut source, &mut upstream, &mut engine), Ok(None));
}

#[test]
fn a_chunk_that_does_not_divide_among_the_channels_is_fatal() {
    let mut upstream = Upstream::new(vec![(6, ramp(6000))], false);
    let (mut source, mut engine) = start(&mut upstream, 0, 1);
    assert_eq!(
        pull(&mut source, &mut upstream, &mut engine),
        Err(StretchError::InvalidLayout { samples: 2048, channels: 6 })
    );
    assert_eq!(upstream.pulls, 2048);
    assert_eq!(pull(&mut source, &mut upstream, &mut engine), Ok(None));
}

#[test]
fn an_unexpected_reply_changes_nothing() {
    let mut source = RubberBandSource::new(2, 44100, None, RubberBandOption::empty()).unwrap();
    assert!(matches!(
        source.step(Reply::Sample(Some(1))),
        Request::Fault(StretchError::UnexpectedReply)
    ));
    assert_eq!(source.phase(), Phase::Idle);
    assert!(!source.is_exhausted());
    assert!(matches!(source.step(Reply::Pull), Request::QueryAvailable));
    assert!(matches!(
        source.step(Reply::Pull),
        Request::Fault(StretchError::UnexpectedReply)
    ));
    assert!(matches!(
        source.step(Reply::EngineCreated),
        Request::Fault(StretchError::UnexpectedReply)
    ));
    assert_eq!(source.phase(), Phase::AwaitAvailable);
    assert!(matches!(source.step(Reply::Available(0)), Request::PullSample));
    assert_eq!(source.phase(), Phase::AwaitSample);
}

#[test]
fn output_that_is_ready_is_taken_before_anything_is_fed() {
    let mut source = RubberBandSource::new(2, 44100, None, RubberBandOption::empty()).unwrap();
    assert!(matches!(source.step(Reply::Pull), Request::QueryAvailable));
    let buffer = match source.step(Reply::Available(3)) {
        Request::Retrieve { buffer } => buffer,
        other => panic!("unexpected request {:?}", other),
    };
    assert_eq!(buffer.num_channels(), 2);
    assert_eq!(buffer.num_samples(), 3);
    assert_eq!(buffer.to_interleaved(), vec![0; 6]);
    let filled = AudioBuffer::from_channels(vec![vec![1, 3, 0], vec![2, 4, 0]]).unwrap();
    // The engine wrote two of the three samples asked for.
    let request = source.step(Reply::Retrieved { buffer: filled, count: 2 });
    assert!(matches!(request, Request::Deliver(Some(1))));
    assert_eq!(source.queued(), 3);
    assert!(matches!(source.step(Reply::Pull), Request::Deliver(Some(2))));
    assert!(matches!(source.step(Reply::Pull), Request::Deliver(Some(3))));
    assert!(matches!(source.step(Reply::Pull), Request::Deliver(Some(4))));
    assert_eq!(source.queued(), 0);
    assert!(matches!(source.step(Reply::Pull), Request::QueryAvailable));
}

#[test]
fn a_count_beyond_the_buffer_is_cut_to_the_buffer() {
    let mut source = RubberBandSource::new(1, 44100, None, RubberBandOption::empty()).unwrap();
    assert!(matches!(source.step(Reply::Pull), Request::QueryAvailable));
    assert!(matches!(source.step(Reply::Available(2)), Request::Retrieve { .. }));
    let filled = AudioBuffer::from_channels(vec![vec![7, 8]]).unwrap();
    let request = source.step(Reply::Retrieved { buffer: filled, count: 100 });
    assert!(matches!(request, Request::Deliver(Some(7))));
    assert_eq!(source.queued(), 1);
}

#[test]
fn a_retrieval_that_brings_nothing_ends_the_stream() {
    let mut source = RubberBandSource::new(1, 44100, None, RubberBandOption::empty()).unwrap();
    assert!(matches!(source.step(Reply::Pull), Request::QueryAvailable));
    assert!(matches!(source.step(Reply::Available(5)), Request::Retrieve { .. }));
    let request = source.step(Reply::Retrieved { buffer: AudioBuffer::new_sized(1, 5), count: 0 });
    assert!(matches!(request, Request::Deliver(None)));
    assert!(source.is_exhausted());
    for _ in 0..5 {
        assert!(matches!(source.step(Reply::Pull), Request::Deliver(None)));
    }
}

#[test]
fn a_negative_availability_counts_as_none() {
    let mut source = RubberBandSource::new(1, 44100, None, RubberBandOption::empty()).unwrap();
    assert!(matches!(source.step(Reply::Pull), Request::QueryAvailable));
    assert!(matches!(source.step(Reply::Available(-1)), Request::PullSample));
    match source.step(Reply::Sample(None)) {
        Request::Process { block, final_block } => {
            assert_eq!(block.num_samples(), 0);
            assert!(final_block);
        }
        other => panic!("unexpected request {:?}", other),
    }
    match source.step(Reply::Available(-1)) {
        Request::Retrieve { buffer } => assert_eq!(buffer.num_samples(), 0),
        other => panic!("unexpected request {:?}", other),
    }
}

#[test]
fn a_pull_ends_within_the_bound() {
    let left = 5000usize;
    let mut upstream = Upstream::new(vec![(2, ramp(left))], false);
    let mut source = RubberBandSource::new(2, 44100, None, RubberBandOption::empty()).unwrap();
    let mut engine = Engine::new(source.engine(), usize::MAX, 1);
    let mut steps = 0usize;
    let mut reply = Reply::Pull;
    let delivered = loop {
        steps += 1;
        reply = match source.step(reply) {
            Request::PullSample => Reply::Sample(upstream.next()),
            Request::Process { block, final_block } => {
                engine.process(&block, final_block);
                Reply::Available(engine.available())
            }
            Request::QueryAvailable => Reply::Available(engine.available()),
            Request::Retrieve { buffer } => {
                let (buffer, count) = engine.retrieve(&buffer);
                Reply::Retrieved { buffer, count }
            }
            Request::Deliver(sample) => break sample,
            other => panic!("unexpected request {:?}", other),
        };
    };
    assert_eq!(delivered, Some(1));
    assert!(steps <= 6 * left + 7);
    // The pull, the first availability, every sample and the end of
    // upstream, the availability after each of three blocks, the retrieval.
    assert_eq!(steps, 1 + 1 + (left + 1) + 3 + 1);
}

#[test]
fn the_stream_goes_from_empty_to_exhausted() {
    let mut source = RubberBandSource::new(1, 44100, None, RubberBandOption::empty()).unwrap();
    assert_eq!(source.stage(), Stage::Empty);
    assert!(matches!(source.step(Reply::Pull), Request::QueryAvailable));
    assert_eq!(source.stage(), Stage::Filling);
    assert!(matches!(source.step(Reply::Available(0)), Request::PullSample));
    assert!(matches!(source.step(Reply::Sample(Some(5))), Request::PullSample));
    assert!(matches!(source.step(Reply::Sample(Some(6))), Request::PullSample));
    assert!(matches!(source.step(Reply::Sample(None)), Request::Process { .. }));
    assert_eq!(source.stage(), Stage::Filling);
    assert!(matches!(source.step(Reply::Available(2)), Request::Retrieve { .. }));
    let filled = AudioBuffer::from_channels(vec![vec![5, 6]]).unwrap();
    let request = source.step(Reply::Retrieved { buffer: filled, count: 2 });
    assert!(matches!(request, Request::Deliver(Some(5))));
    assert_eq!(source.stage(), Stage::Draining);
    assert!(matches!(source.step(Reply::Pull), Request::Deliver(Some(6))));
    assert_eq!(source.stage(), Stage::Empty);
    assert!(matches!(source.step(Reply::Pull), Request::QueryAvailable));
    assert!(matches!(source.step(Reply::Available(0)), Request::Retrieve { .. }));
    let request = source.step(Reply::Retrieved { buffer: AudioBuffer::new(1), count: 0 });
    assert!(matches!(request, Request::Deliver(None)));
    assert_eq!(source.stage(), Stage::Exhausted);
    assert!(matches!(source.step(Reply::Pull), Request::Deliver(None)));
    assert!(matches!(
        source.step(Reply::Available(7)),
        Request::Fault(StretchError::UnexpectedReply)
    ));
    assert_eq!(source.stage(), Stage::Exhausted);
}

#[test]
fn the_frame_shrinks_by_what_was_fed() {
    let mut upstream = Upstream::new(vec![(1, ramp(3000)), (1, ramp(10))], true);
    let (mut source, mut engine) = start(&mut upstream, usize::MAX, 1);
    engine.latency = 100_000;
    let mut out = Vec::new();
    while let Some(sample) = pull(&mut source, &mut upstream, &mut engine).unwrap() {
        out.push(sample);
    }
    // 3000 frames are left at first: the chunk, then the rest of the frame,
    // then the next frame, then the end.
    assert_eq!(engine.blocks, vec![(2048, false), (952, false), (10, false), (0, true)]);
    assert!(engine.created.is_empty());
    assert_eq!(out.len(), 3010);
}

#[test]
fn two_channels_take_the_frame_twice() {
    let mut upstream = Upstream::new(vec![(2, ramp(3000))], true);
    let (mut source, mut engine) = start(&mut upstream, 0, 1);
    engine.latency = 100_000;
    let mut out = Vec::new();
    while let Some(sample) = pull(&mut source, &mut upstream, &mut engine).unwrap() {
        out.push(sample);
    }
    // 1500 frames of two channels: 1024 frames fill the chunk, 476 are left.
    assert_eq!(engine.blocks, vec![(2048, false), (952, false), (0, true)]);
    assert_eq!(out, ramp(3000));
}
