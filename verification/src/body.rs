//! Filters that extract the body of a request.
use std::marker::PhantomData;
use serde::de::DeserializeOwned;
use vstd::prelude::*;
use crate::accumulation::{
    carry_to_end, frames_of, lemma_ready_buffer_joins_the_chunks, run, Accumulation, Phase, Step,
};
use crate::deferred::{Deferred, Poll, Single};
use crate::filter::{Filter, Outcome};
use crate::rejection::Rejection;
use crate::route::{takes, RouteContext};
use crate::stream::{BodyStream, Closing, Frame, Next};
use crate::tuple::One;

verus! {

/// The body of a request on its way to becoming one buffer.
pub struct ConcatFut {
    stream: BodyStream,
    buf: Vec<u8>,
    phase: Phase,
}

impl View for ConcatFut {
    type V = Accumulation;

    closed spec fn view(&self) -> Accumulation {
        Accumulation {
            received: self.buf@,
            queued: self.stream.queued(),
            closing: self.stream.closing(),
            phase: self.phase,
        }
    }
}

/// Whether `out` is `report` with its bytes held in a vector.
pub open spec fn reports(out: Poll<Vec<u8>>, report: Poll<Seq<u8>>) -> bool {
    match out {
        Poll::Pending => report is Pending,
        Poll::Ready(buf) => report == Poll::Ready(buf@),
        Poll::Failed(rejection) => report == Poll::<Seq<u8>>::Failed(rejection),
    }
}

impl ConcatFut {
    /// Starts to join the chunks of `stream`.
    pub fn new(stream: BodyStream) -> (fut: ConcatFut)
        ensures
            fut@ == Accumulation::fresh(stream.queued(), stream.closing()),
    {
        ConcatFut { stream, buf: Vec::new(), phase: Phase::Accumulating }
    }
}

impl Deferred for ConcatFut {
    type Output = Vec<u8>;

    open spec fn live(&self) -> bool {
        true
    }

    open spec fn polls_to(&self, after: &Self, out: Poll<Vec<u8>>) -> bool {
        &&& after@ == self@.after_poll()
        &&& reports(out, self@.poll_report())
    }

    open spec fn passes_on(&self, frame: Frame, after: &Self, back: Option<Frame>) -> bool {
        &&& after@ == self@.after_delivery(frame)
        &&& back is None
    }

    /// Reads the chunks that have arrived, in their order, and appends each
    /// to the buffer. Reports the buffer once the stream has ended, and
    /// again on every later poll.
    fn poll(&mut self) -> (out: Poll<Vec<u8>>) {
        match self.phase {
            Phase::Complete => {
                let joined = self.buf.clone();
                assert(joined@ =~= self.buf@);
                return Poll::Ready(joined);
            },
            Phase::Failed => {
                return Poll::Failed(Rejection::StreamFailure);
            },
            Phase::Accumulating => {},
        }
        loop
            invariant
                self.phase == Phase::Accumulating,
                old(self).phase == Phase::Accumulating,
                self.stream.closing() == old(self).stream.closing(),
                self.buf@ + self.stream.queued().flatten() == old(self).buf@ + old(
                    self,
                ).stream.queued().flatten(),
            decreases self.stream.queued().len(),
        {
            let ghost before = self.stream.queued();
            match self.stream.poll_next() {
                Next::Chunk(mut bytes) => {
                    self.buf.append(&mut bytes);
                    assert(self.buf@ + self.stream.queued().flatten() =~= old(self).buf@ + old(
                        self,
                    ).stream.queued().flatten()) by {
                        assert(before.flatten() == before.first() + before.drop_first().flatten());
                    }
                },
                Next::End => {
                    self.phase = Phase::Complete;
                    let joined = self.buf.clone();
                    proof {
                        assert(before.flatten() =~= Seq::<u8>::empty());
                        assert(joined@ =~= self.buf@);
                        assert(self.buf@ =~= old(self)@.received + old(self)@.queued.flatten());
                        assert(self@.queued =~= Seq::<Seq<u8>>::empty());
                    }
                    return Poll::Ready(joined);
                },
                Next::Pending => {
                    proof {
                        assert(before.flatten() =~= Seq::<u8>::empty());
                        assert(self.buf@ =~= old(self)@.received + old(self)@.queued.flatten());
                        assert(self@.queued =~= Seq::<Seq<u8>>::empty());
                    }
                    return Poll::Pending;
                },
                Next::Failed => {
                    self.phase = Phase::Failed;
                    self.buf.clear();
                    proof {
                        assert(self@.queued =~= Seq::<Seq<u8>>::empty());
                    }
                    return Poll::Failed(Rejection::StreamFailure);
                },
            }
        }
    }

    /// Keeps the frame for the stream that this joins.
    fn deliver(&mut self, frame: Frame) -> (back: Option<Frame>) {
        self.stream.deliver(frame);
        None
    }
}

/// What a decoder adapter has done with its body.
#[derive(Clone, Copy, Debug, PartialEq, Eq, Structural)]
pub enum Stage {
    /// The body is not joined yet.
    Waiting,
    /// The body was decoded and the value handed out.
    Delivered,
    /// The body broke off or did not decode; this does not change again.
    Failed(Rejection),
}

/// The error of `serde_json::from_slice`.
#[verifier::external_type_specification]
#[verifier::external_body]
pub struct ExJsonError(serde_json::Error);

/// Calls `serde_json::from_slice`, which reads `bytes` as one JSON text and
/// builds a `T` from it. What comes back depends on how `T` reads JSON, so
/// nothing is claimed of it.
#[verifier::external_body]
fn from_json_slice<T: DeserializeOwned>(bytes: &Vec<u8>) -> (parsed: Result<T, serde_json::Error>) {
    serde_json::from_slice(bytes.as_slice())
}

/// Whether `out` is what the adapter reports for a decoder's answer
/// `parsed`: the decoded value as it is, or a decode failure and no value.
pub open spec fn settles<T, E>(parsed: Result<T, E>, out: Poll<T>) -> bool {
    match parsed {
        Ok(value) => out == Poll::Ready(value),
        Err(_) => out == Poll::<T>::Failed(Rejection::DecodeFailure),
    }
}

/// The body of a request on its way to becoming a `T`: the joining of the
/// body, and the decoder that reads the joined buffer.
pub struct JsonFut<T, D> {
    concat: ConcatFut,
    decode: D,
    stage: Stage,
    _marker: PhantomData<T>,
}

impl<T, D> JsonFut<T, D> {
    /// The joining of the body.
    pub closed spec fn body(&self) -> Accumulation {
        self.concat@
    }

    /// The decoder.
    pub closed spec fn decoder(&self) -> D {
        self.decode
    }

    /// What the adapter has done with the body.
    pub closed spec fn stage(&self) -> Stage {
        self.stage
    }

    /// What the adapter reports for a decoder's answer: the decoded value
    /// as it is, or a decode failure and no value.
    pub fn settle<E>(parsed: Result<T, E>) -> (out: Poll<T>)
        ensures
            settles(parsed, out),
    {
        match parsed {
            Ok(value) => Poll::Ready(value),
            Err(_) => Poll::Failed(Rejection::DecodeFailure),
        }
    }
}

impl<T, E, D: Fn(&Vec<u8>) -> Result<T, E>> JsonFut<T, D> {
    /// Whether the decoder can be called on every buffer.
    pub open spec fn decoder_takes_any_bytes(&self) -> bool {
        forall|buf: &Vec<u8>| call_requires(self.decoder(), (buf,))
    }

    /// Waits for `concat` to join its body, to read the buffer with
    /// `decode` then. The decoder must take any bytes.
    pub fn new(concat: ConcatFut, decode: D) -> (fut: JsonFut<T, D>)
        requires
            forall|buf: &Vec<u8>| call_requires(decode, (buf,)),
        ensures
            fut.body() == concat@,
            fut.decoder() == decode,
            fut.stage() == Stage::Waiting,
            fut.live(),
    {
        JsonFut { concat, decode, stage: Stage::Waiting, _marker: PhantomData }
    }

    /// Whether a poll can lead from `self` to `after` and report `out`. An
    /// adapter that failed stays as it is and reports its failure. One
    /// that waits polls the joining of the body; once that reports the
    /// buffer, the decoder reads it, and what the decoder returns decides.
    pub open spec fn poll_leads_to(&self, after: &Self, out: Poll<T>) -> bool {
        &&& after.decoder() == self.decoder()
        &&& match self.stage() {
            Stage::Failed(rejection) => {
                &&& after.body() == self.body()
                &&& after.stage() == self.stage()
                &&& out == Poll::<T>::Failed(rejection)
            },
            Stage::Delivered => false,
            Stage::Waiting => {
                &&& after.body() == self.body().after_poll()
                &&& match self.body().poll_report() {
                    Poll::Pending => out is Pending && after.stage() == Stage::Waiting,
                    Poll::Failed(rejection) => out == Poll::<T>::Failed(rejection) && after.stage()
                        == Stage::Failed(rejection),
                    Poll::Ready(bytes) => exists|buf: Vec<u8>, parsed: Result<T, E>|
                        {
                            &&& buf@ == bytes
                            &&& #[trigger] call_ensures(self.decoder(), (&buf,), parsed)
                            &&& settles(parsed, out)
                            &&& after.stage() == if parsed is Ok {
                                Stage::Delivered
                            } else {
                                Stage::Failed(Rejection::DecodeFailure)
                            }
                        },
                }
            },
        }
    }

    /// Whether the offer of `frame` leads from `self` to `after` and gives
    /// `back`: the frame is kept for the body.
    pub open spec fn offer_leads_to(
        &self,
        frame: Frame,
        after: &Self,
        back: Option<Frame>,
    ) -> bool {
        &&& after.body() == self.body().after_delivery(frame)
        &&& after.decoder() == self.decoder()
        &&& after.stage() == self.stage()
        &&& back is None
    }

    /// What `live`, `polls_to` and `passes_on` say of every value of this
    /// type.
    pub proof fn lemma_deferred(&self)
        ensures
            forall|this: Self| #[trigger]
                this.live() == (this.stage() != Stage::Delivered
                    && this.decoder_takes_any_bytes()),
            forall|this: Self, after: Self, out: Poll<T>| #[trigger]
                this.polls_to(&after, out) == this.poll_leads_to(&after, out),
            forall|this: Self, frame: Frame, after: Self, back: Option<Frame>| #[trigger]
                this.passes_on(frame, &after, back) == this.offer_leads_to(frame, &after, back),
    {
    }
}

impl<T, E, D: Fn(&Vec<u8>) -> Result<T, E>> Deferred for JsonFut<T, D> {
    type Output = T;

    open spec fn live(&self) -> bool {
        &&& self.stage() != Stage::Delivered
        &&& self.decoder_takes_any_bytes()
    }

    open spec fn polls_to(&self, after: &Self, out: Poll<T>) -> bool {
        self.poll_leads_to(after, out)
    }

    open spec fn passes_on(&self, frame: Frame, after: &Self, back: Option<Frame>) -> bool {
        self.offer_leads_to(frame, after, back)
    }

    /// Polls the joining of the body and, once the buffer is there, hands
    /// it to the decoder. The decoding is tried once: a failure stays, and
    /// the body is not polled again.
    fn poll(&mut self) -> (out: Poll<T>)
        ensures
            old(self).poll_leads_to(final(self), out),
    {
        if let Stage::Failed(rejection) = self.stage {
            return Poll::Failed(rejection);
        }
        let polled = self.concat.poll();
        assert(self.decoder() == old(self).decoder());
        match polled {
            Poll::Pending => Poll::Pending,
            Poll::Failed(rejection) => {
                self.stage = Stage::Failed(rejection);
                Poll::Failed(rejection)
            },
            Poll::Ready(buf) => {
                assert(call_requires(old(self).decoder(), (&buf,)));
                let parsed = (self.decode)(&buf);
                let ghost answer = parsed;
                let out = Self::settle(parsed);
                self.stage = match out {
                    Poll::Ready(_) => Stage::Delivered,
                    _ => Stage::Failed(Rejection::DecodeFailure),
                };
                assert(call_ensures(old(self).decoder(), (&buf,), answer));
                out
            },
        }
    }

    /// Keeps the frame for the body that this decodes.
    fn deliver(&mut self, frame: Frame) -> (back: Option<Frame>)
        ensures
            old(self).offer_leads_to(frame, final(self), back),
    {
        let back = self.concat.deliver(frame);
        assert(self.decoder() == old(self).decoder());
        back
    }
}

/// Takes the body of the request and starts to join it, or says that the
/// body is gone.
fn accumulate(ctx: &mut RouteContext) -> (started: Result<ConcatFut, Rejection>)
    ensures
        takes(*old(ctx), *final(ctx), old(ctx).body()),
        match old(ctx).body() {
            Some(stream) => started matches Ok(fut) && fut@ == Accumulation::fresh(
                stream.queued(),
                stream.closing(),
            ),
            None => started == Err::<ConcatFut, Rejection>(Rejection::BodyUnavailable),
        },
{
    match ctx.take_body() {
        Some(stream) => Ok(ConcatFut::new(stream)),
        None => Err(Rejection::BodyUnavailable),
    }
}

/// The filter that extracts the body of a request as one buffer.
#[derive(Clone, Copy, Debug)]
pub struct Concat;

impl Concat {
    /// Whether one application can lead from the context `before` to the
    /// context `after` and come to `out`: the body is taken, and `out` is
    /// the joining of that body, begun on what the stream held, or the
    /// rejection of a request whose body was gone.
    pub open spec fn apply_leads_to(
        &self,
        before: &RouteContext,
        after: &RouteContext,
        out: Outcome<One<Vec<u8>>, Single<ConcatFut>>,
    ) -> bool {
        &&& takes(*before, *after, before.body())
        &&& match before.body() {
            Some(stream) => out matches Outcome::Deferred(fut) && fut.inner@
                == Accumulation::fresh(stream.queued(), stream.closing()),
            None => out == Outcome::<One<Vec<u8>>, Single<ConcatFut>>::Failed(
                Rejection::BodyUnavailable,
            ),
        }
    }
}

/// A filter that matches any request and extracts its body, joined into one
/// buffer, as the deferred value of a tuple of one. It rejects a request
/// whose body was taken before.
pub fn concat() -> (filter: Concat)
    ensures
        filter == Concat,
        filter.usable(),
        forall|
            before: RouteContext,
            after: RouteContext,
            out: Outcome<One<Vec<u8>>, Single<ConcatFut>>,
        | #[trigger]
            filter.applies(&before, &after, out) == filter.apply_leads_to(&before, &after, out),
{
    Concat
}

impl Filter for Concat {
    type Extract = One<Vec<u8>>;

    type Future = Single<ConcatFut>;

    open spec fn usable(&self) -> bool {
        true
    }

    open spec fn applies(
        &self,
        before: &RouteContext,
        after: &RouteContext,
        out: Outcome<One<Vec<u8>>, Single<ConcatFut>>,
    ) -> bool {
        self.apply_leads_to(before, after, out)
    }

    proof fn lemma_puts_no_body_in(
        &self,
        before: &RouteContext,
        after: &RouteContext,
        out: Outcome<One<Vec<u8>>, Single<ConcatFut>>,
    ) {
    }

    /// Takes the body out of the context and starts to join it.
    fn apply(&self, ctx: &mut RouteContext) -> (out: Outcome<One<Vec<u8>>, Single<ConcatFut>>)
        ensures
            self.apply_leads_to(old(ctx), final(ctx), out),
    {
        match accumulate(ctx) {
            Ok(fut) => Outcome::Deferred(Single { inner: fut }),
            Err(rejection) => Outcome::Failed(rejection),
        }
    }
}

/// The filter that extracts the body of a request, decoded.
pub struct Json<T, D> {
    decode: D,
    _marker: PhantomData<T>,
}

impl<T, D> Json<T, D> {
    /// The decoder that reads the joined body.
    pub closed spec fn decoder(&self) -> D {
        self.decode
    }
}

/// A filter that matches any request and extracts its body, decoded from
/// JSON into a `T`, as the deferred value of a tuple of one. It rejects a
/// request whose body was taken before.
pub fn json<T: DeserializeOwned>() -> (filter: Json<
    T,
    impl Fn(&Vec<u8>) -> Result<T, serde_json::Error> + Copy,
>)
    ensures
        filter.usable(),
{
    decoded_with(from_json_slice::<T>)
}

/// A filter that matches any request and extracts its body, read by
/// `decode`, as the deferred value of a tuple of one. The decoder must take
/// any bytes.
pub fn decoded_with<T, E, D: Fn(&Vec<u8>) -> Result<T, E> + Copy>(decode: D) -> (filter: Json<T, D>)
    requires
        forall|buf: &Vec<u8>| call_requires(decode, (buf,)),
    ensures
        filter.decoder() == decode,
        filter.usable(),
{
    Json { decode, _marker: PhantomData }
}

impl<T, E, D: Fn(&Vec<u8>) -> Result<T, E> + Copy> Json<T, D> {
    /// Whether the decoder can be called on every buffer.
    pub open spec fn decoder_takes_any_bytes(&self) -> bool {
        forall|buf: &Vec<u8>| call_requires(self.decoder(), (buf,))
    }

    /// Whether one application can lead from the context `before` to the
    /// context `after` and come to `out`: the body is taken, and `out` is
    /// a decoder adapter that waits for it, or the rejection of a request
    /// whose body was gone.
    pub open spec fn apply_leads_to(
        &self,
        before: &RouteContext,
        after: &RouteContext,
        out: Outcome<One<T>, Single<JsonFut<T, D>>>,
    ) -> bool {
        &&& takes(*before, *after, before.body())
        &&& match before.body() {
            Some(stream) => {
                &&& out matches Outcome::Deferred(fut)
                &&& fut.inner.body() == Accumulation::fresh(stream.queued(), stream.closing())
                &&& fut.inner.decoder() == self.decoder()
                &&& fut.inner.stage() == Stage::Waiting
            },
            None => out == Outcome::<One<T>, Single<JsonFut<T, D>>>::Failed(
                Rejection::BodyUnavailable,
            ),
        }
    }

    /// What `usable` and `applies` say of every value of this type.
    pub proof fn lemma_filter(&self)
        ensures
            forall|this: Self| #[trigger] this.usable() == this.decoder_takes_any_bytes(),
            forall|
                this: Self,
                before: RouteContext,
                after: RouteContext,
                out: Outcome<One<T>, Single<JsonFut<T, D>>>,
            | #[trigger]
                this.applies(&before, &after, out) == this.apply_leads_to(&before, &after, out),
    {
    }
}

impl<T, E, D: Fn(&Vec<u8>) -> Result<T, E> + Copy> Filter for Json<T, D> {
    type Extract = One<T>;

    type Future = Single<JsonFut<T, D>>;

    open spec fn usable(&self) -> bool {
        self.decoder_takes_any_bytes()
    }

    open spec fn applies(
        &self,
        before: &RouteContext,
        after: &RouteContext,
        out: Outcome<One<T>, Single<JsonFut<T, D>>>,
    ) -> bool {
        self.apply_leads_to(before, after, out)
    }

    proof fn lemma_puts_no_body_in(
        &self,
        before: &RouteContext,
        after: &RouteContext,
        out: Outcome<One<T>, Single<JsonFut<T, D>>>,
    ) {
    }

    /// Takes the body out of the context and starts to join it, for the
    /// decoder to read once it is whole.
    fn apply(&self, ctx: &mut RouteContext) -> (out: Outcome<One<T>, Single<JsonFut<T, D>>>)
        ensures
            self.apply_leads_to(old(ctx), final(ctx), out),
    {
        match accumulate(ctx) {
            Ok(fut) => {
                assert forall|buf: &Vec<u8>| call_requires(self.decode, (buf,)) by {
                    assert(call_requires(self.decoder(), (buf,)));
                }
                Outcome::Deferred(Single { inner: JsonFut::new(fut, self.decode) })
            },
            Err(rejection) => Outcome::Failed(rejection),
        }
    }
}

/// What the body filter extracts is the whole body, in order. Take a
/// request whose body has not begun to arrive, the deferred value `start`
/// that the filter extracts from it, and any steps of the driver in which
/// the chunks `chunks` arrive and then the end. Then the next poll reports
/// the chunks joined in their order, wherever the earlier polls stood.
pub proof fn lemma_concat_yields_the_whole_body(
    filter: Concat,
    before: RouteContext,
    after: RouteContext,
    start: ConcatFut,
    steps: Seq<Step>,
    chunks: Seq<Seq<u8>>,
    end: ConcatFut,
    settled: ConcatFut,
    out: Poll<Vec<u8>>,
)
    requires
        before.body() matches Some(stream) && stream.queued().len() == 0 && stream.closing()
            == Closing::Open,
        filter.applies(&before, &after, Outcome::Deferred(Single { inner: start })),
        end@ == run(start@, steps),
        carry_to_end(frames_of(steps), chunks),
        end.polls_to(&settled, out),
    ensures
        out matches Poll::Ready(buf) && buf@ == chunks.flatten(),
{
    assert(start@.queued =~= Seq::<Seq<u8>>::empty());
    lemma_ready_buffer_joins_the_chunks(steps, chunks);
}

/// Whether the driver's `steps`, taken in order, can lead a decoder adapter
/// from `start` to `end`.
pub open spec fn leads_to<T, E, D: Fn(&Vec<u8>) -> Result<T, E>>(
    start: JsonFut<T, D>,
    steps: Seq<Step>,
    end: JsonFut<T, D>,
) -> bool
    decreases steps.len(),
{
    if steps.len() == 0 {
        end == start
    } else {
        exists|earlier: JsonFut<T, D>|
            leads_to(start, steps.drop_last(), earlier) && #[trigger] takes_step(
                earlier,
                steps.last(),
                end,
            )
    }
}

/// Whether one step of the driver can lead a decoder adapter from `from`
/// to `to`.
pub open spec fn takes_step<T, E, D: Fn(&Vec<u8>) -> Result<T, E>>(
    from: JsonFut<T, D>,
    step: Step,
    to: JsonFut<T, D>,
) -> bool {
    match step {
        Step::Arrive(frame) => from.passes_on(frame, &to, None),
        Step::Poll => exists|out: Poll<T>| #[trigger] from.polls_to(&to, out),
    }
}

/// An adapter that still waits has only joined: its body is where the steps
/// have brought it, and no poll among them has settled anything.
pub proof fn lemma_waiting_adapter_has_only_joined<T, E, D: Fn(&Vec<u8>) -> Result<T, E>>(
    start: JsonFut<T, D>,
    steps: Seq<Step>,
    end: JsonFut<T, D>,
)
    requires
        leads_to(start, steps, end),
        end.stage() == Stage::Waiting,
    ensures
        start.stage() == Stage::Waiting,
        end.body() == run(start.body(), steps),
        end.decoder() == start.decoder(),
    decreases steps.len(),
{
    if steps.len() > 0 {
        let earlier = choose|earlier: JsonFut<T, D>|
            leads_to(start, steps.drop_last(), earlier) && #[trigger] takes_step(
                earlier,
                steps.last(),
                end,
            );
        lemma_waiting_adapter_has_only_joined(start, steps.drop_last(), earlier);
    }
}

/// A decode failure stays: an adapter that has failed is failed after any
/// steps, with the same rejection, and its body is polled no more.
pub proof fn lemma_failed_adapter_stays_failed<T, E, D: Fn(&Vec<u8>) -> Result<T, E>>(
    start: JsonFut<T, D>,
    steps: Seq<Step>,
    end: JsonFut<T, D>,
    rejection: Rejection,
)
    requires
        leads_to(start, steps, end),
        start.stage() == Stage::Failed(rejection),
    ensures
        end.stage() == Stage::Failed(rejection),
        end.body().phase == start.body().phase,
        end.body().received == start.body().received,
    decreases steps.len(),
{
    if steps.len() > 0 {
        let earlier = choose|earlier: JsonFut<T, D>|
            leads_to(start, steps.drop_last(), earlier) && #[trigger] takes_step(
                earlier,
                steps.last(),
                end,
            );
        lemma_failed_adapter_stays_failed(start, steps.drop_last(), earlier, rejection);
    }
}

/// What the JSON filter extracts is what the decoder makes of the whole
/// body. Take a request whose body has not begun to arrive, the deferred
/// value `start` that the filter extracts from it, and any steps of the
/// driver in which the chunks `chunks` arrive and then the end, and after
/// which the adapter still waits. Then the next poll hands the chunks,
/// joined in their order, to the decoder and reports the value that the
/// decoder returned, as it is; where the decoder returned an error, it
/// reports a decode failure and no value.
pub proof fn lemma_json_yields_what_the_decoder_reads<
    T,
    E,
    D: Fn(&Vec<u8>) -> Result<T, E> + Copy,
>(
    filter: Json<T, D>,
    before: RouteContext,
    after: RouteContext,
    start: JsonFut<T, D>,
    steps: Seq<Step>,
    chunks: Seq<Seq<u8>>,
    end: JsonFut<T, D>,
    settled: JsonFut<T, D>,
    out: Poll<T>,
)
    requires
        before.body() matches Some(stream) && stream.queued().len() == 0 && stream.closing()
            == Closing::Open,
        filter.applies(&before, &after, Outcome::Deferred(Single { inner: start })),
        leads_to(start, steps, end),
        carry_to_end(frames_of(steps), chunks),
        end.stage() == Stage::Waiting,
        end.polls_to(&settled, out),
    ensures
        exists|buf: Vec<u8>, parsed: Result<T, E>|
            {
                &&& buf@ == chunks.flatten()
                &&& #[trigger] call_ensures(filter.decoder(), (&buf,), parsed)
                &&& settles(parsed, out)
            },
{
    lemma_waiting_adapter_has_only_joined(start, steps, end);
    assert(start.body().queued =~= Seq::<Seq<u8>>::empty());
    lemma_ready_buffer_joins_the_chunks(steps, chunks);
}

} // verus!
