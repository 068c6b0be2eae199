use crate::buffer::{
    deinterleave, interleave, lemma_frames, lemma_interleave_deinterleave, rectangular,
};
use crate::engine::replacement_for;
use crate::error::StretchError;
use crate::model::{
    lemma_transition_keeps_well_formed, retrieved_samples, stage_of, transition, well_formed,
    SourceState, Stage, INPUT_BUFFER_SIZE,
};
use crate::protocol::{Instruction, Phase, Reply};
use vstd::prelude::*;

verus! {

/// The queue drains one sample at a time. A step that delivers a sample
/// either answers a pull from a queue that held one, and leaves the queue
/// shorter by exactly that sample; or it answers a retrieval that brought
/// at least one sample, and leaves the queue as it was, then longer by what
/// came, then shorter by the sample delivered. A step that ends in a fault
/// leaves the queue as it was or empties it, and every other step leaves it
/// as it was.
pub proof fn lemma_monotonic_drain(s: SourceState, reply: Reply)
    requires
        well_formed(s),
    ensures
        ({
            let (t, request) = transition(s, reply);
            match request {
                Instruction::Deliver(Some(sample)) => {
                    ||| {
                        &&& reply is Pull
                        &&& s.queue.len() >= 1
                        &&& sample == s.queue[0]
                        &&& t.queue == s.queue.drop_first()
                        &&& t.queue.len() == s.queue.len() - 1
                    }
                    ||| {
                        &&& reply matches Reply::Retrieved { buffer, count }
                        &&& retrieved_samples(buffer@, count).len() >= 1
                        &&& sample == (s.queue + retrieved_samples(buffer@, count))[0]
                        &&& t.queue == (s.queue + retrieved_samples(buffer@, count)).drop_first()
                        &&& t.queue.len() == s.queue.len() + retrieved_samples(buffer@, count).len()
                            - 1
                    }
                },
                Instruction::Fault(error) => t.queue == s.queue || t.queue.len() == 0,
                _ => t.queue == s.queue,
            }
        }),
{
}

/// The end of the stream is for good. In a state that has reached it, no
/// step changes the state, a pull delivers the end of the stream, and
/// nothing ever delivers a sample or asks the driver to touch upstream or
/// the engine.
pub proof fn lemma_exhausted_is_final(s: SourceState, reply: Reply)
    requires
        well_formed(s),
        stage_of(s) == Stage::Exhausted,
    ensures
        transition(s, reply).0 == s,
        stage_of(transition(s, reply).0) == Stage::Exhausted,
        reply is Pull ==> transition(s, reply).1 == Instruction::Deliver(None),
        !(reply is Pull) ==> transition(s, reply).1 == Instruction::Fault(
            StretchError::UnexpectedReply,
        ),
{
}

/// Once upstream has ended it is left alone: no later step asks for a
/// sample or for upstream's format, feeds the engine or replaces it. What
/// is left is to answer pulls from the queue and to drain the engine, and a
/// retrieval that brings nothing into an empty queue ends the stream.
pub proof fn lemma_ended_upstream_is_left_alone(s: SourceState, reply: Reply)
    requires
        well_formed(s),
        s.upstream_done,
    ensures
        ({
            let (t, request) = transition(s, reply);
            &&& t.upstream_done
            &&& !(request is PullSample)
            &&& !(request is InspectUpstream)
            &&& !(request is CreateEngine)
            &&& !(request is Process)
            &&& (reply matches Reply::Retrieved { buffer, count } ==> (s.phase
                == Phase::AwaitRetrieved && retrieved_samples(buffer@, count).len() == 0
                ==> t.exhausted && request == Instruction::Deliver(None)))
        }),
{
}

/// What a step hands to the engine. A block has the engine's channels, all
/// equally long, and holds no more samples than the fixed chunk. A block
/// that is not the last one holds exactly the samples that its feed step
/// aimed at. The last block goes out in the step that learns of upstream's
/// end: upstream had not ended before that step and has ended after it.
pub proof fn lemma_blocks_are_bounded(s: SourceState, reply: Reply)
    requires
        well_formed(s),
    ensures
        ({
            let (t, request) = transition(s, reply);
            request matches Instruction::Process { block, final_block } ==> {
                &&& !s.upstream_done
                &&& final_block == t.upstream_done
                &&& block.len() == t.engine.channels
                &&& rectangular(block)
                &&& interleave(block).len() <= INPUT_BUFFER_SIZE
                &&& (!final_block ==> interleave(block).len() == s.target)
                &&& (reply is Sample ==> match s.frame_left {
                    None => t.frame_left.is_none(),
                    Some(left) => block[0].len() <= left && t.frame_left == Some(
                        (left - block[0].len()) as usize,
                    ),
                })
            }
        }),
{
    let (t, request) = transition(s, reply);
    if let Instruction::Process { block, final_block } = request {
        let channels = t.engine.channels as int;
        let batch: Seq<u32> = match reply {
            Reply::Sample(Some(value)) => s.batch.push(value),
            Reply::Sample(None) => s.batch,
            _ => Seq::empty(),
        };
        assert(block == deinterleave(batch, channels));
        assert(batch.len() as int % channels == 0);
        lemma_interleave_deinterleave(batch, channels);
        if let Some(left) = s.frame_left {
            if reply is Sample {
                lemma_frames(batch.len() as int, channels);
                let frames = batch.len() as int / channels;
                assert(batch.len() <= left * channels);
                assert(frames <= left) by (nonlinear_arith)
                    requires
                        frames * channels <= left * channels,
                        channels >= 1,
                ;
            }
        }
    }
}

/// The sample that a step pulls from upstream: the one that the reply
/// hands over, where the adapter waited for one.
pub open spec fn pulled(s: SourceState, reply: Reply) -> Seq<u32> {
    match reply {
        Reply::Sample(Some(sample)) => if s.phase == Phase::AwaitSample {
            seq![sample]
        } else {
            Seq::empty()
        },
        _ => Seq::empty(),
    }
}

/// The samples that a step feeds to the engine, interleaved.
pub open spec fn fed(request: Instruction) -> Seq<u32> {
    match request {
        Instruction::Process { block, final_block } => interleave(block),
        _ => Seq::empty(),
    }
}

/// Whether the request reports a batch that does not divide among the
/// channels.
pub open spec fn layout_fault(request: Instruction) -> bool {
    match request {
        Instruction::Fault(StretchError::InvalidLayout { .. }) => true,
        _ => false,
    }
}

/// The engine is fed what upstream gave, in upstream's order: in every step
/// but one that finds a batch which does not divide among the channels,
/// the batch as it was followed by what the step pulled is what the step
/// fed followed by the batch as it is.
pub proof fn lemma_step_feeds_what_was_pulled(s: SourceState, reply: Reply)
    requires
        well_formed(s),
        !layout_fault(transition(s, reply).1),
    ensures
        s.batch + pulled(s, reply) == fed(transition(s, reply).1) + transition(s, reply).0.batch,
{
    let (t, request) = transition(s, reply);
    if let Instruction::Process { block, final_block } = request {
        let batch: Seq<u32> = match reply {
            Reply::Sample(Some(value)) => s.batch.push(value),
            Reply::Sample(None) => s.batch,
            _ => Seq::empty(),
        };
        assert(block == deinterleave(batch, t.engine.channels as int));
        lemma_interleave_deinterleave(batch, t.engine.channels as int);
        assert(s.batch + pulled(s, reply) =~= batch);
    }
    assert(s.batch + pulled(s, reply) =~= fed(request) + t.batch);
}

/// Whether none of these steps finds a batch that does not divide among
/// the channels.
pub open spec fn batches_divide(s: SourceState, replies: Seq<Reply>) -> bool
    decreases replies.len(),
{
    if replies.len() == 0 {
        true
    } else {
        &&& !layout_fault(transition(s, replies[0]).1)
        &&& batches_divide(transition(s, replies[0]).0, replies.drop_first())
    }
}

/// All that these steps pull from upstream.
pub open spec fn pulled_by(s: SourceState, replies: Seq<Reply>) -> Seq<u32>
    decreases replies.len(),
{
    if replies.len() == 0 {
        Seq::empty()
    } else {
        pulled(s, replies[0]) + pulled_by(transition(s, replies[0]).0, replies.drop_first())
    }
}

/// All that these steps feed to the engine.
pub open spec fn fed_by(s: SourceState, replies: Seq<Reply>) -> Seq<u32>
    decreases replies.len(),
{
    if replies.len() == 0 {
        Seq::empty()
    } else {
        fed(transition(s, replies[0]).1) + fed_by(
            transition(s, replies[0]).0,
            replies.drop_first(),
        )
    }
}

/// Nothing of upstream is lost on the way to the engine. Over any steps in
/// which every batch divides among the channels, the batch at the start
/// followed by all that was pulled from upstream is all that was fed to the
/// engine followed by the batch at the end.
pub proof fn lemma_engine_is_fed_upstream(s: SourceState, replies: Seq<Reply>)
    requires
        well_formed(s),
        batches_divide(s, replies),
    ensures
        s.batch + pulled_by(s, replies) == fed_by(s, replies) + state_after(s, replies).batch,
    decreases replies.len(),
{
    if replies.len() == 0 {
        assert(s.batch + pulled_by(s, replies) =~= fed_by(s, replies) + s.batch);
    } else {
        let reply = replies[0];
        let (t, request) = transition(s, reply);
        let rest = replies.drop_first();
        lemma_transition_keeps_well_formed(s, reply);
        lemma_step_feeds_what_was_pulled(s, reply);
        lemma_engine_is_fed_upstream(t, rest);
        let end = state_after(s, replies);
        assert(s.batch + pulled_by(s, replies) =~= (s.batch + pulled(s, reply)) + pulled_by(
            t,
            rest,
        ));
        assert((fed(request) + t.batch) + pulled_by(t, rest) =~= fed(request) + (t.batch
            + pulled_by(t, rest)));
        assert(fed(request) + (fed_by(t, rest) + end.batch) =~= fed_by(s, replies) + end.batch);
    }
}

/// The samples that a step takes in: what a retrieval brought, where the
/// adapter waited for one.
pub open spec fn taken_in(s: SourceState, reply: Reply) -> Seq<u32> {
    match reply {
        Reply::Retrieved { buffer, count } => if s.phase == Phase::AwaitRetrieved {
            retrieved_samples(buffer@, count)
        } else {
            Seq::empty()
        },
        _ => Seq::empty(),
    }
}

/// The samples that a step hands to the consumer: one or none.
pub open spec fn handed_out(request: Instruction) -> Seq<u32> {
    match request {
        Instruction::Deliver(Some(sample)) => seq![sample],
        _ => Seq::empty(),
    }
}

/// The queue neither loses nor invents a sample, and keeps the order: in
/// every step, what was queued followed by what the step took in is what
/// the step handed out followed by what is queued after it.
pub proof fn lemma_step_conserves_samples(s: SourceState, reply: Reply)
    requires
        well_formed(s),
    ensures
        s.queue + taken_in(s, reply) == handed_out(transition(s, reply).1) + transition(
            s,
            reply,
        ).0.queue,
{
    let (t, request) = transition(s, reply);
    assert(s.queue + taken_in(s, reply) =~= handed_out(request) + t.queue);
}

/// The state after the steps that `replies` start, one after the other.
pub open spec fn state_after(s: SourceState, replies: Seq<Reply>) -> SourceState
    decreases replies.len(),
{
    if replies.len() == 0 {
        s
    } else {
        state_after(transition(s, replies[0]).0, replies.drop_first())
    }
}

/// All that the engine's retrievals bring in the course of these steps.
pub open spec fn retrieved_by(s: SourceState, replies: Seq<Reply>) -> Seq<u32>
    decreases replies.len(),
{
    if replies.len() == 0 {
        Seq::empty()
    } else {
        taken_in(s, replies[0]) + retrieved_by(
            transition(s, replies[0]).0,
            replies.drop_first(),
        )
    }
}

/// All that the consumer is handed in the course of these steps.
pub open spec fn delivered_by(s: SourceState, replies: Seq<Reply>) -> Seq<u32>
    decreases replies.len(),
{
    if replies.len() == 0 {
        Seq::empty()
    } else {
        handed_out(transition(s, replies[0]).1) + delivered_by(
            transition(s, replies[0]).0,
            replies.drop_first(),
        )
    }
}

/// The consumer gets what the engine gave, in the engine's order. Over any
/// steps whatever, the samples queued at the start followed by all that the
/// retrievals brought are the samples delivered followed by those still
/// queued at the end. So no more samples are ever delivered than were
/// queued and retrieved.
pub proof fn lemma_stream_is_first_in_first_out(s: SourceState, replies: Seq<Reply>)
    requires
        well_formed(s),
    ensures
        well_formed(state_after(s, replies)),
        s.queue + retrieved_by(s, replies) == delivered_by(s, replies) + state_after(
            s,
            replies,
        ).queue,
        delivered_by(s, replies).len() <= s.queue.len() + retrieved_by(s, replies).len(),
    decreases replies.len(),
{
    if replies.len() == 0 {
        assert(s.queue + retrieved_by(s, replies) =~= delivered_by(s, replies) + s.queue);
    } else {
        let reply = replies[0];
        let (t, request) = transition(s, reply);
        let rest = replies.drop_first();
        lemma_transition_keeps_well_formed(s, reply);
        lemma_step_conserves_samples(s, reply);
        lemma_stream_is_first_in_first_out(t, rest);
        let end = state_after(s, replies);
        assert(s.queue + retrieved_by(s, replies) =~= (s.queue + taken_in(s, reply))
            + retrieved_by(t, rest));
        assert((handed_out(request) + t.queue) + retrieved_by(t, rest) =~= handed_out(request) + (
        t.queue + retrieved_by(t, rest)));
        assert(handed_out(request) + (delivered_by(t, rest) + end.queue) =~= delivered_by(
            s,
            replies,
        ) + end.queue);
    }
}

/// The end of the stream is told once it is reached, and only then: a step
/// that delivers the end of the stream, or that reports a fatal error,
/// leaves the stream ended.
pub proof fn lemma_end_of_stream_is_exhaustion(s: SourceState, reply: Reply)
    requires
        well_formed(s),
    ensures
        ({
            let (t, request) = transition(s, reply);
            &&& request == Instruction::Deliver(None) ==> stage_of(t) == Stage::Exhausted
            &&& (request matches Instruction::Fault(error) ==> error
                == StretchError::UnexpectedReply || stage_of(t) == Stage::Exhausted)
            &&& request is Deliver ==> t.phase == Phase::Idle
        }),
{
}

/// Whether `reply` is what an adapter in phase `phase` waits for.
pub open spec fn awaited(phase: Phase, reply: Reply) -> bool {
    match (phase, reply) {
        (Phase::Idle, Reply::Pull) => true,
        (Phase::AwaitAvailable, Reply::Available(_)) => true,
        (Phase::AwaitProcessed, Reply::Available(_)) => true,
        (Phase::AwaitUpstream, Reply::Upstream { .. }) => true,
        (Phase::AwaitEngine(_), Reply::EngineCreated) => true,
        (Phase::AwaitEngine(_), Reply::EngineFailed) => true,
        (Phase::AwaitSample, Reply::Sample(_)) => true,
        (Phase::AwaitRetrieved, Reply::Retrieved { .. }) => true,
        _ => false,
    }
}

/// A reply that the adapter does not wait for changes nothing and is
/// answered with a fault; no other step is.
pub proof fn lemma_unexpected_reply(s: SourceState, reply: Reply)
    requires
        well_formed(s),
    ensures
        !awaited(s.phase, reply) ==> transition(s, reply) == (
            s,
            Instruction::Fault(StretchError::UnexpectedReply),
        ),
        awaited(s.phase, reply) ==> transition(s, reply).1 != Instruction::Fault(
            StretchError::UnexpectedReply,
        ),
{
}

/// A bound on the steps that the pull under way still takes, for an
/// upstream that holds `left` more samples.
pub open spec fn steps_left(s: SourceState, left: nat) -> nat {
    if s.phase == Phase::AwaitRetrieved {
        1
    } else if s.upstream_done {
        if s.phase == Phase::Idle {
            3
        } else {
            2
        }
    } else {
        match s.phase {
            Phase::AwaitSample => 6 * left + 3,
            Phase::AwaitEngine(_) => 6 * left + 4,
            Phase::AwaitUpstream => 6 * left + 5,
            Phase::Idle => 6 * left + 7,
            _ => 6 * left + 6,
        }
    }
}

/// What upstream holds after the step that `reply` starts: one sample less
/// where the reply hands one over.
pub open spec fn upstream_after(reply: Reply, left: nat) -> nat {
    match reply {
        Reply::Sample(Some(_)) => (left - 1) as nat,
        _ => left,
    }
}

/// Every pull from a finite upstream ends. A step that takes a reply which
/// the adapter waits for either ends the pull, with a delivery or a fault,
/// or brings the bound on the steps still to come down by at least one. So
/// a pull from an upstream that holds `left` more samples takes at most
/// `6 * left + 7` steps, whatever the engine reports.
pub proof fn lemma_pull_ends(s: SourceState, reply: Reply, left: nat)
    requires
        well_formed(s),
        awaited(s.phase, reply),
        reply is Sample && reply->Sample_0 is Some ==> left >= 1,
    ensures
        ({
            let (t, request) = transition(s, reply);
            ||| request is Deliver
            ||| request is Fault
            ||| steps_left(t, upstream_after(reply, left)) < steps_left(s, left)
        }),
        s.phase == Phase::Idle ==> steps_left(s, left) <= 6 * left + 7,
{
}

/// Whether the steps that `replies` start, one after the other from `s`,
/// each take a reply that the adapter waits for, and none of them ends the
/// pull with a delivery or a fault.
pub open spec fn pull_goes_on(s: SourceState, replies: Seq<Reply>) -> bool
    decreases replies.len(),
{
    if replies.len() == 0 {
        true
    } else {
        &&& awaited(s.phase, replies[0])
        &&& !(transition(s, replies[0]).1 is Deliver)
        &&& !(transition(s, replies[0]).1 is Fault)
        &&& pull_goes_on(transition(s, replies[0]).0, replies.drop_first())
    }
}

/// The number of samples that `replies` hand over from upstream.
pub open spec fn samples_in(replies: Seq<Reply>) -> nat
    decreases replies.len(),
{
    if replies.len() == 0 {
        0
    } else {
        let rest = samples_in(replies.drop_first());
        match replies[0] {
            Reply::Sample(Some(_)) => rest + 1,
            _ => rest,
        }
    }
}

/// No pull from a finite upstream goes on for ever. Steps that do not end
/// the pull and hand over at most `left` samples of upstream are at most
/// as many as the bound says: from the consumer's pull on, no more than
/// `6 * left + 7`, whatever the engine reports.
pub proof fn lemma_pull_takes_bounded_steps(s: SourceState, replies: Seq<Reply>, left: nat)
    requires
        well_formed(s),
        pull_goes_on(s, replies),
        samples_in(replies) <= left,
    ensures
        replies.len() <= steps_left(s, left),
        steps_left(s, left) <= 6 * left + 7,
    decreases replies.len(),
{
    if replies.len() > 0 {
        let reply = replies[0];
        let t = transition(s, reply).0;
        lemma_pull_ends(s, reply, left);
        lemma_transition_keeps_well_formed(s, reply);
        lemma_pull_takes_bounded_steps(t, replies.drop_first(), upstream_after(reply, left));
    }
}

/// Whether the reply tells the adapter, which looks at upstream's format at
/// a frame boundary, of a usable format whose channel count is not the
/// engine's.
pub open spec fn channel_count_changed(s: SourceState, reply: Reply) -> bool {
    match reply {
        Reply::Upstream { channels, sample_rate, frame_len } => {
            &&& s.phase == Phase::AwaitUpstream
            &&& channels as u32 != s.engine.channels
            &&& channels >= 1
            &&& sample_rate >= 1
        },
        _ => false,
    }
}

/// The engine is replaced when upstream's channel count has changed, and
/// only then. A step asks for another engine exactly when it learns, at a
/// frame boundary, of a usable format whose channel count is not the
/// engine's; it asks for one with upstream's format, the stream's options
/// and both ratios at 1. Upstream's format is asked for only when none of
/// its frame is left, and the engine in use changes only when the driver
/// reports the engine asked for.
pub proof fn lemma_engine_follows_channel_count(s: SourceState, reply: Reply)
    requires
        well_formed(s),
    ensures
        ({
            let (t, request) = transition(s, reply);
            &&& (request is CreateEngine <==> channel_count_changed(s, reply))
            &&& (request matches Instruction::CreateEngine(config) ==> (reply matches Reply::Upstream {
                channels,
                sample_rate,
                frame_len,
            } ==> config == replacement_for(sample_rate, channels as u32, s.options)) && t.phase
                == Phase::AwaitEngine(config) && t.engine == s.engine)
            &&& (request is InspectUpstream ==> s.frame_left == Some(0usize) && !s.upstream_done)
            &&& (t.engine != s.engine ==> reply is EngineCreated && s.phase == Phase::AwaitEngine(
                t.engine,
            ))
            &&& t.options == s.options
        }),
{
}

} // verus!
