//! The joining of a body's chunks, as contracts see it.
use vstd::prelude::*;
use crate::deferred::Poll;
use crate::rejection::Rejection;
use crate::stream::{BodyStream, Closing, Frame};

verus! {

/// How far the joining of a body has come.
#[derive(Clone, Copy, Debug, PartialEq, Eq, Structural)]
pub enum Phase {
    /// The end of the body has not been read.
    Accumulating,
    /// The body was read to its end.
    Complete,
    /// The body broke off.
    Failed,
}

/// The joining of a body, as contracts see it.
pub struct Accumulation {
    /// The bytes read from the stream so far, in the order of arrival.
    pub received: Seq<u8>,
    /// The chunks that wait in the stream, oldest first.
    pub queued: Seq<Seq<u8>>,
    /// What the transport has said about the end of the body.
    pub closing: Closing,
    /// How far the joining has come.
    pub phase: Phase,
}

impl Accumulation {
    /// The joining of a stream from which nothing was read yet.
    pub open spec fn fresh(queued: Seq<Seq<u8>>, closing: Closing) -> Accumulation {
        Accumulation { received: Seq::empty(), queued, closing, phase: Phase::Accumulating }
    }

    /// The state after the delivery of `frame`.
    pub open spec fn after_delivery(self, frame: Frame) -> Accumulation {
        Accumulation {
            queued: BodyStream::queued_after(self.queued, self.closing, frame),
            closing: BodyStream::closing_after(self.closing, frame),
            ..self
        }
    }

    /// The state after a poll. While it accumulates, a poll reads every
    /// chunk that waits and then settles if the stream was closed.
    pub open spec fn after_poll(self) -> Accumulation {
        match self.phase {
            Phase::Accumulating => match self.closing {
                Closing::Open => Accumulation {
                    received: self.received + self.queued.flatten(),
                    queued: Seq::empty(),
                    ..self
                },
                Closing::Ended => Accumulation {
                    received: self.received + self.queued.flatten(),
                    queued: Seq::empty(),
                    phase: Phase::Complete,
                    ..self
                },
                Closing::Aborted => Accumulation {
                    received: Seq::empty(),
                    queued: Seq::empty(),
                    phase: Phase::Failed,
                    ..self
                },
            },
            _ => self,
        }
    }

    /// What a poll reports.
    pub open spec fn poll_report(self) -> Poll<Seq<u8>> {
        match self.after_poll().phase {
            Phase::Accumulating => Poll::Pending,
            Phase::Complete => Poll::Ready(self.after_poll().received),
            Phase::Failed => Poll::Failed(Rejection::StreamFailure),
        }
    }
}

/// What the driver does to a body that is being joined.
pub enum Step {
    /// The transport delivers a frame.
    Arrive(Frame),
    /// The driver polls.
    Poll,
}

/// The state that `steps`, taken in order, lead to from `start`.
pub open spec fn run(start: Accumulation, steps: Seq<Step>) -> Accumulation
    decreases steps.len(),
{
    if steps.len() == 0 {
        start
    } else {
        let before = run(start, steps.drop_last());
        match steps.last() {
            Step::Arrive(frame) => before.after_delivery(frame),
            Step::Poll => before.after_poll(),
        }
    }
}

/// The chunks that a stream holds once `steps` are over, had no poll read
/// any: those that arrived before the stream was closed, in their order.
pub open spec fn arrived(steps: Seq<Step>) -> Seq<Seq<u8>>
    decreases steps.len(),
{
    if steps.len() == 0 {
        Seq::empty()
    } else {
        match steps.last() {
            Step::Arrive(frame) => BodyStream::queued_after(
                arrived(steps.drop_last()),
                closed_by(steps.drop_last()),
                frame,
            ),
            Step::Poll => arrived(steps.drop_last()),
        }
    }
}

/// What the transport has said about the end of the body by the end of
/// `steps`.
pub open spec fn closed_by(steps: Seq<Step>) -> Closing
    decreases steps.len(),
{
    if steps.len() == 0 {
        Closing::Open
    } else {
        match steps.last() {
            Step::Arrive(frame) => BodyStream::closing_after(closed_by(steps.drop_last()), frame),
            Step::Poll => closed_by(steps.drop_last()),
        }
    }
}

/// What holds of a joining that began on an empty open stream, after any
/// steps: the bytes read and the bytes that wait make up what arrived.
pub open spec fn accounts_for(state: Accumulation, chunks: Seq<Seq<u8>>, closing: Closing) -> bool {
    &&& state.closing == closing
    &&& match state.phase {
        Phase::Accumulating => state.received + state.queued.flatten() == chunks.flatten(),
        Phase::Complete => closing == Closing::Ended && state.received == chunks.flatten()
            && state.queued.len() == 0,
        Phase::Failed => closing == Closing::Aborted && state.received.len() == 0
            && state.queued.len() == 0,
    }
}

/// No chunk is lost, repeated or moved, however polls and arrivals take
/// turns: after any steps, what was read and what still waits are together
/// the chunks that arrived before the stream was closed, in their order.
pub proof fn lemma_every_chunk_is_accounted_for(steps: Seq<Step>)
    ensures
        accounts_for(
            run(Accumulation::fresh(Seq::empty(), Closing::Open), steps),
            arrived(steps),
            closed_by(steps),
        ),
    decreases steps.len(),
{
    let start = Accumulation::fresh(Seq::empty(), Closing::Open);
    if steps.len() == 0 {
        assert(start.received + start.queued.flatten() =~= arrived(steps).flatten());
    } else {
        let earlier = steps.drop_last();
        lemma_every_chunk_is_accounted_for(earlier);
        let before = run(start, earlier);
        let chunks = arrived(earlier);
        match steps.last() {
            Step::Arrive(frame) => {
                let after = before.after_delivery(frame);
                match frame {
                    Frame::Chunk(bytes) => {
                        if before.closing == Closing::Open {
                            Seq::lemma_flatten_push(before.queued, bytes@);
                            Seq::lemma_flatten_push(chunks, bytes@);
                            assert(after.received + after.queued.flatten() =~= chunks.push(
                                bytes@,
                            ).flatten());
                        }
                    },
                    _ => {},
                }
            },
            Step::Poll => {
                let after = before.after_poll();
                if before.phase == Phase::Accumulating && before.closing != Closing::Aborted {
                    assert(after.queued.flatten() =~= Seq::<u8>::empty());
                    assert(after.received + after.queued.flatten() =~= chunks.flatten());
                }
            },
        }
    }
}

/// The buffer of a joined body is its chunks in the order of arrival,
/// whatever the interleaving: a poll at the end of any steps reports
/// `Pending` while the stream is open, the chunks that arrived, joined in
/// order, once it has ended, and a stream failure once it broke off.
pub proof fn lemma_poll_reports_what_arrived(steps: Seq<Step>)
    ensures
        run(Accumulation::fresh(Seq::empty(), Closing::Open), steps).poll_report() == (
        match closed_by(steps) {
            Closing::Open => Poll::Pending,
            Closing::Ended => Poll::Ready(arrived(steps).flatten()),
            Closing::Aborted => Poll::Failed(Rejection::StreamFailure),
        }),
{
    lemma_every_chunk_is_accounted_for(steps);
    let state = run(Accumulation::fresh(Seq::empty(), Closing::Open), steps);
    if state.phase == Phase::Complete {
        assert(state.after_poll().received =~= arrived(steps).flatten());
    }
}

/// A joining that has settled stays as it is: once it is complete or has
/// failed, no poll and no arrival changes what it holds or what a poll
/// reports.
pub proof fn lemma_settled_joining_stays(state: Accumulation, steps: Seq<Step>)
    requires
        state.phase != Phase::Accumulating,
    ensures
        run(state, steps).phase == state.phase,
        run(state, steps).received == state.received,
        run(state, steps).poll_report() == state.poll_report(),
    decreases steps.len(),
{
    if steps.len() > 0 {
        lemma_settled_joining_stays(state, steps.drop_last());
    }
}

/// The frames that arrive in the course of `steps`, in their order.
pub open spec fn frames_of(steps: Seq<Step>) -> Seq<Frame>
    decreases steps.len(),
{
    if steps.len() == 0 {
        Seq::empty()
    } else {
        match steps.last() {
            Step::Arrive(frame) => frames_of(steps.drop_last()).push(frame),
            Step::Poll => frames_of(steps.drop_last()),
        }
    }
}

/// Whether `frames` are the chunks `chunks`, one frame each and in order.
pub open spec fn carry(frames: Seq<Frame>, chunks: Seq<Seq<u8>>) -> bool {
    &&& frames.len() == chunks.len()
    &&& forall|i: int|
        0 <= i < frames.len() ==> (#[trigger] frames[i] matches Frame::Chunk(bytes) && bytes@
            == chunks[i])
}

/// Whether `frames` are a whole body: the chunks `chunks`, one frame each
/// and in order, and then the end.
pub open spec fn carry_to_end(frames: Seq<Frame>, chunks: Seq<Seq<u8>>) -> bool {
    &&& frames.len() == chunks.len() + 1
    &&& frames.last() is End
    &&& carry(frames.drop_last(), chunks)
}

proof fn lemma_chunks_arrive(steps: Seq<Step>, chunks: Seq<Seq<u8>>)
    requires
        carry(frames_of(steps), chunks),
    ensures
        arrived(steps) == chunks,
        closed_by(steps) == Closing::Open,
    decreases steps.len(),
{
    if steps.len() == 0 {
        assert(arrived(steps) =~= chunks);
    } else {
        let earlier = steps.drop_last();
        match steps.last() {
            Step::Arrive(frame) => {
                let frames = frames_of(steps);
                assert(frames.drop_last() =~= frames_of(earlier));
                assert(frames[frames.len() - 1] == frame);
                assert forall|i: int| 0 <= i < frames_of(earlier).len() implies (
                #[trigger] frames_of(earlier)[i] matches Frame::Chunk(bytes) && bytes@
                    == chunks.drop_last()[i]) by {
                    assert(frames_of(earlier)[i] == frames[i]);
                }
                lemma_chunks_arrive(earlier, chunks.drop_last());
                assert(arrived(steps) =~= chunks);
            },
            Step::Poll => {
                lemma_chunks_arrive(earlier, chunks);
            },
        }
    }
}

/// A body that arrives whole is joined whole: where the frames of `steps`
/// are the chunks `chunks` and then the end, a poll after `steps` reports
/// the chunks joined in their order, wherever among the arrivals the
/// earlier polls stood.
pub proof fn lemma_ready_buffer_joins_the_chunks(steps: Seq<Step>, chunks: Seq<Seq<u8>>)
    requires
        carry_to_end(frames_of(steps), chunks),
    ensures
        run(Accumulation::fresh(Seq::empty(), Closing::Open), steps).poll_report() == Poll::Ready(
            chunks.flatten(),
        ),
    decreases steps.len(),
{
    lemma_poll_reports_what_arrived(steps);
    lemma_whole_body_arrives(steps, chunks);
}

proof fn lemma_whole_body_arrives(steps: Seq<Step>, chunks: Seq<Seq<u8>>)
    requires
        carry_to_end(frames_of(steps), chunks),
    ensures
        arrived(steps) == chunks,
        closed_by(steps) == Closing::Ended,
    decreases steps.len(),
{
    if steps.len() > 0 {
        let earlier = steps.drop_last();
        match steps.last() {
            Step::Arrive(frame) => {
                assert(frames_of(steps).drop_last() =~= frames_of(earlier));
                lemma_chunks_arrive(earlier, chunks);
            },
            Step::Poll => {
                lemma_whole_body_arrives(earlier, chunks);
            },
        }
    }
}

} // verus!
