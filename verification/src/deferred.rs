//! Values that may not be there yet.
use vstd::prelude::*;
use crate::rejection::Rejection;
use crate::stream::Frame;
use crate::tuple::{one, Cons, Nil, One};

verus! {

/// What one poll of a deferred value reports.
#[derive(Debug)]
pub enum Poll<T> {
    /// Not yet: the driver polls again when more input has arrived.
    Pending,
    /// Done, with the value.
    Ready(T),
    /// Done, without a value.
    Failed(Rejection),
}

/// A value that the driver brings about by polling.
///
/// Nothing here blocks. The driver offers what arrived of the request body
/// with `deliver` and asks with `poll`; a `Pending` answer returns control
/// to it.
///
/// Each deferred type of this crate that has type parameters states
/// `polls_to` and `passes_on` a second time, under the names
/// `poll_leads_to` and `offer_leads_to`, and promises those of its `poll`
/// and `deliver` too. A caller unfolds these where Verus does not unfold
/// the trait's, which is so where a type holds a function;
/// `lemma_deferred` of the type says that they agree.
pub trait Deferred: Sized {
    /// The value that a poll hands out in the end.
    type Output;

    /// Whether a poll is in order: the value was not handed out yet, and
    /// the functions that this holds take every input. A poll that hands
    /// out no value leaves it so, and so does the offer of a frame.
    spec fn live(&self) -> bool;

    /// Whether a poll can lead from `self` to `after` and report `out`.
    spec fn polls_to(&self, after: &Self, out: Poll<Self::Output>) -> bool;

    /// Whether the offer of `frame` leads from `self` to `after` and gives
    /// `back`.
    spec fn passes_on(&self, frame: Frame, after: &Self, back: Option<Frame>) -> bool;

    /// Asks for the value.
    fn poll(&mut self) -> (out: Poll<Self::Output>)
        requires
            old(self).live(),
        ensures
            old(self).polls_to(final(self), out),
            !(out is Ready) ==> final(self).live(),
    ;

    /// Offers a frame of the request body. The part that reads the body
    /// keeps it; a deferred value that reads no body gives it back.
    fn deliver(&mut self, frame: Frame) -> (back: Option<Frame>)
        ensures
            old(self).passes_on(frame, final(self), back),
            final(self).live() == old(self).live(),
    ;
}

/// A value that was there from the start, for a poll to hand out.
pub struct Settled<T> {
    value: Option<T>,
}

impl<T> Settled<T> {
    /// The value that waits to be handed out.
    pub closed spec fn value(&self) -> Option<T> {
        self.value
    }

    /// Holds `value` for the poll that asks for it.
    pub fn new(value: T) -> (settled: Settled<T>)
        ensures
            settled.value() == Some(value),
    {
        Settled { value: Some(value) }
    }
}

impl<T> Deferred for Settled<T> {
    type Output = T;

    open spec fn live(&self) -> bool {
        self.value() is Some
    }

    open spec fn polls_to(&self, after: &Self, out: Poll<T>) -> bool {
        &&& self.value() matches Some(value)
        &&& out == Poll::Ready(value)
        &&& after.value() is None
    }

    open spec fn passes_on(&self, frame: Frame, after: &Self, back: Option<Frame>) -> bool {
        &&& after == self
        &&& back == Some(frame)
    }

    /// Hands the value out.
    fn poll(&mut self) -> (out: Poll<T>) {
        Poll::Ready(self.value.take().unwrap())
    }

    /// Gives the frame back: a settled value reads no body.
    fn deliver(&mut self, frame: Frame) -> (back: Option<Frame>) {
        Some(frame)
    }
}

/// A deferred value whose value counts as a tuple of one.
pub struct Single<D> {
    /// The deferred value that is polled.
    pub inner: D,
}

/// Whether `out` is `polled` with its value, if there is one, made a tuple
/// of one.
pub open spec fn singles<T>(polled: Poll<T>, out: Poll<One<T>>) -> bool {
    match polled {
        Poll::Pending => out is Pending,
        Poll::Ready(value) => out == Poll::Ready(Cons { head: value, tail: Nil }),
        Poll::Failed(rejection) => out == Poll::<One<T>>::Failed(rejection),
    }
}

impl<D: Deferred> Single<D> {
    /// Whether a poll can lead from `self` to `after` and report `out`:
    /// the inner value is polled, and its value, if there is one, is made
    /// a tuple of one.
    pub open spec fn poll_leads_to(&self, after: &Self, out: Poll<One<D::Output>>) -> bool {
        exists|polled: Poll<D::Output>| #[trigger]
            self.inner.polls_to(&after.inner, polled) && singles(polled, out)
    }

    /// Whether the offer of `frame` leads from `self` to `after` and gives
    /// `back`: the frame is offered to the inner value.
    pub open spec fn offer_leads_to(
        &self,
        frame: Frame,
        after: &Self,
        back: Option<Frame>,
    ) -> bool {
        self.inner.passes_on(frame, &after.inner, back)
    }

    /// What `live`, `polls_to` and `passes_on` say of every value of this
    /// type.
    pub proof fn lemma_deferred(&self)
        ensures
            forall|this: Self| #[trigger] this.live() == this.inner.live(),
            forall|this: Self, after: Self, out: Poll<One<D::Output>>| #[trigger]
                this.polls_to(&after, out) == this.poll_leads_to(&after, out),
            forall|this: Self, frame: Frame, after: Self, back: Option<Frame>| #[trigger]
                this.passes_on(frame, &after, back) == this.offer_leads_to(frame, &after, back),
    {
    }
}

impl<D: Deferred> Deferred for Single<D> {
    type Output = One<D::Output>;

    open spec fn live(&self) -> bool {
        self.inner.live()
    }

    open spec fn polls_to(&self, after: &Self, out: Poll<One<D::Output>>) -> bool {
        self.poll_leads_to(after, out)
    }

    open spec fn passes_on(&self, frame: Frame, after: &Self, back: Option<Frame>) -> bool {
        self.offer_leads_to(frame, after, back)
    }

    /// Polls the inner value and makes what it yields a tuple of one.
    fn poll(&mut self) -> (out: Poll<One<D::Output>>)
        ensures
            old(self).poll_leads_to(final(self), out),
    {
        let polled = self.inner.poll();
        assert(old(self).inner.polls_to(&self.inner, polled));
        match polled {
            Poll::Pending => Poll::Pending,
            Poll::Ready(value) => Poll::Ready(one(value)),
            Poll::Failed(rejection) => Poll::Failed(rejection),
        }
    }

    /// Offers the frame to the inner value.
    fn deliver(&mut self, frame: Frame) -> (back: Option<Frame>)
        ensures
            old(self).offer_leads_to(frame, final(self), back),
    {
        self.inner.deliver(frame)
    }
}

} // verus!
