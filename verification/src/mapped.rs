//! A transform for what a filter extracts.
use vstd::prelude::*;
use crate::deferred::{Deferred, Poll};
use crate::filter::{Filter, Outcome};
use crate::route::RouteContext;
use crate::stream::Frame;
use crate::tuple::{one, Cons, Nil, One};

verus! {

/// A deferred value with a transform for the value it yields.
pub struct MapFut<D, G> {
    inner: D,
    transform: G,
}

impl<D, G> MapFut<D, G> {
    /// The deferred value that is polled.
    pub closed spec fn inner(&self) -> D {
        self.inner
    }

    /// The transform that its value goes through.
    pub closed spec fn transform(&self) -> G {
        self.transform
    }
}

impl<T, U, D: Deferred<Output = T>, G: Fn(T) -> U> MapFut<D, G> {
    /// Whether the transform can be called on every value.
    pub open spec fn transform_takes_any_value(&self) -> bool {
        forall|value: T| call_requires(self.transform(), (value,))
    }

    /// Whether a poll can lead from `self` to `after` and report `out`:
    /// the inner value is polled, and its value, if there is one, goes
    /// through the transform.
    pub open spec fn poll_leads_to(&self, after: &Self, out: Poll<One<U>>) -> bool {
        &&& after.transform() == self.transform()
        &&& exists|polled: Poll<T>| #[trigger]
            self.inner().polls_to(&after.inner(), polled) && self.sends_on(polled, out)
    }

    /// Whether `out` is what a poll reports where the inner value
    /// reported `polled`: a value goes through the transform, and what is
    /// pending or failed stays so.
    pub open spec fn sends_on(&self, polled: Poll<T>, out: Poll<One<U>>) -> bool {
        match polled {
            Poll::Pending => out is Pending,
            Poll::Failed(rejection) => out == Poll::<One<U>>::Failed(rejection),
            Poll::Ready(value) => exists|mapped: U| #[trigger]
                call_ensures(self.transform(), (value,), mapped) && out == Poll::Ready(
                    Cons { head: mapped, tail: Nil },
                ),
        }
    }

    /// Whether the offer of `frame` leads from `self` to `after` and gives
    /// `back`: the frame is offered to the inner value.
    pub open spec fn offer_leads_to(
        &self,
        frame: Frame,
        after: &Self,
        back: Option<Frame>,
    ) -> bool {
        &&& after.transform() == self.transform()
        &&& self.inner().passes_on(frame, &after.inner(), back)
    }

    /// What `live`, `polls_to` and `passes_on` say of every value of this
    /// type.
    pub proof fn lemma_deferred(&self)
        ensures
            forall|this: Self| #[trigger]
                this.live() == (this.inner().live() && this.transform_takes_any_value()),
            forall|this: Self, after: Self, out: Poll<One<U>>| #[trigger]
                this.polls_to(&after, out) == this.poll_leads_to(&after, out),
            forall|this: Self, frame: Frame, after: Self, back: Option<Frame>| #[trigger]
                this.passes_on(frame, &after, back) == this.offer_leads_to(frame, &after, back),
    {
    }

    /// Sends what `inner` yields through `transform`, which must take any
    /// value.
    pub fn new(inner: D, transform: G) -> (mapped: MapFut<D, G>)
        requires
            forall|value: T| call_requires(transform, (value,)),
        ensures
            mapped.inner() == inner,
            mapped.transform() == transform,
            mapped.live() == inner.live(),
    {
        MapFut { inner, transform }
    }
}

impl<T, U, D: Deferred<Output = T>, G: Fn(T) -> U> Deferred for MapFut<D, G> {
    type Output = One<U>;

    open spec fn live(&self) -> bool {
        &&& self.inner().live()
        &&& self.transform_takes_any_value()
    }

    open spec fn polls_to(&self, after: &Self, out: Poll<One<U>>) -> bool {
        self.poll_leads_to(after, out)
    }

    open spec fn passes_on(&self, frame: Frame, after: &Self, back: Option<Frame>) -> bool {
        self.offer_leads_to(frame, after, back)
    }

    /// Polls the inner value and sends what it yields through the
    /// transform. What is pending stays pending, what failed stays failed.
    fn poll(&mut self) -> (out: Poll<One<U>>)
        ensures
            old(self).poll_leads_to(final(self), out),
    {
        let polled = self.inner.poll();
        assert(old(self).inner().polls_to(&self.inner(), polled));
        assert(self.transform() == old(self).transform());
        match polled {
            Poll::Pending => Poll::Pending,
            Poll::Failed(rejection) => Poll::Failed(rejection),
            Poll::Ready(value) => {
                assert(call_requires(old(self).transform(), (value,)));
                let mapped = (self.transform)(value);
                assert(call_ensures(old(self).transform(), (value,), mapped));
                Poll::Ready(one(mapped))
            },
        }
    }

    /// Offers the frame to the inner value.
    fn deliver(&mut self, frame: Frame) -> (back: Option<Frame>)
        ensures
            old(self).offer_leads_to(frame, final(self), back),
    {
        let back = self.inner.deliver(frame);
        assert(self.transform() == old(self).transform());
        back
    }
}

/// A filter with a transform for the tuple it extracts.
pub struct Mapped<F, G> {
    filter: F,
    transform: G,
}

impl<F, G> Mapped<F, G> {
    /// The filter that extracts.
    pub closed spec fn filter(&self) -> F {
        self.filter
    }

    /// The transform that the tuple goes through.
    pub closed spec fn transform(&self) -> G {
        self.transform
    }
}

impl<
    T,
    U,
    D: Deferred<Output = T>,
    F: Filter<Extract = T, Future = D>,
    G: Fn(T) -> U + Copy,
> Mapped<F, G> {
    /// Whether the transform can be called on every tuple.
    pub open spec fn transform_takes_any_tuple(&self) -> bool {
        forall|tuple: T| call_requires(self.transform(), (tuple,))
    }

    /// Whether one application can lead from the context `before` to the
    /// context `after` and come to `out`: the filter is applied, and its
    /// tuple goes through the transform at once, or on the poll that
    /// yields it. A rejection passes through.
    pub open spec fn apply_leads_to(
        &self,
        before: &RouteContext,
        after: &RouteContext,
        out: Outcome<One<U>, MapFut<D, G>>,
    ) -> bool {
        exists|inner: Outcome<T, D>| #[trigger]
            self.filter().applies(before, after, inner) && self.sends_on(inner, out)
    }

    /// Whether `out` is what the application comes to where the filter
    /// came to `inner`: a tuple goes through the transform, a deferred
    /// value is given the transform for the poll that yields the tuple,
    /// and a rejection passes through.
    pub open spec fn sends_on(
        &self,
        inner: Outcome<T, D>,
        out: Outcome<One<U>, MapFut<D, G>>,
    ) -> bool {
        match inner {
            Outcome::Failed(rejection) => out == Outcome::<One<U>, MapFut<D, G>>::Failed(
                rejection,
            ),
            Outcome::Immediate(tuple) => exists|mapped: U| #[trigger]
                call_ensures(self.transform(), (tuple,), mapped) && out == Outcome::<
                    One<U>,
                    MapFut<D, G>,
                >::Immediate(Cons { head: mapped, tail: Nil }),
            Outcome::Deferred(deferred) => out matches Outcome::Deferred(mapped) && mapped.inner()
                == deferred && mapped.transform() == self.transform(),
        }
    }

    /// What `usable` and `applies` say of every value of this type.
    pub proof fn lemma_filter(&self)
        ensures
            forall|this: Self| #[trigger]
                this.usable() == (this.filter().usable() && this.transform_takes_any_tuple()),
            forall|
                this: Self,
                before: RouteContext,
                after: RouteContext,
                out: Outcome<One<U>, MapFut<D, G>>,
            | #[trigger]
                this.applies(&before, &after, out) == this.apply_leads_to(&before, &after, out),
    {
    }

    /// Sends what `filter` extracts through `transform`, which must take
    /// any tuple.
    pub fn new(filter: F, transform: G) -> (map: Mapped<F, G>)
        requires
            forall|tuple: T| call_requires(transform, (tuple,)),
        ensures
            map.filter() == filter,
            map.transform() == transform,
            map.usable() == filter.usable(),
    {
        Mapped { filter, transform }
    }
}

impl<
    T,
    U,
    D: Deferred<Output = T>,
    F: Filter<Extract = T, Future = D>,
    G: Fn(T) -> U + Copy,
> Filter for Mapped<F, G> {
    type Extract = One<U>;

    type Future = MapFut<D, G>;

    open spec fn usable(&self) -> bool {
        &&& self.filter().usable()
        &&& self.transform_takes_any_tuple()
    }

    open spec fn applies(
        &self,
        before: &RouteContext,
        after: &RouteContext,
        out: Outcome<One<U>, MapFut<D, G>>,
    ) -> bool {
        self.apply_leads_to(before, after, out)
    }

    proof fn lemma_puts_no_body_in(
        &self,
        before: &RouteContext,
        after: &RouteContext,
        out: Outcome<One<U>, MapFut<D, G>>,
    ) {
        let inner = choose|inner: Outcome<T, D>| #[trigger]
            self.filter().applies(before, after, inner);
        self.filter().lemma_puts_no_body_in(before, after, inner);
    }

    /// Applies the filter and sends its tuple through the transform: at
    /// once where the tuple is there, on the poll that yields it where it
    /// is deferred. A rejection passes through.
    fn apply(&self, ctx: &mut RouteContext) -> (out: Outcome<One<U>, MapFut<D, G>>)
        ensures
            self.apply_leads_to(old(ctx), final(ctx), out),
    {
        let inner = self.filter.apply(ctx);
        assert(self.filter().applies(old(ctx), ctx, inner));
        match inner {
            Outcome::Failed(rejection) => Outcome::Failed(rejection),
            Outcome::Immediate(tuple) => {
                assert(call_requires(self.transform(), (tuple,)));
                let mapped = (self.transform)(tuple);
                assert(call_ensures(self.transform(), (tuple,), mapped));
                Outcome::Immediate(one(mapped))
            },
            Outcome::Deferred(deferred) => {
                assert forall|value: T| call_requires(self.transform, (value,)) by {
                    assert(call_requires(self.transform(), (value,)));
                }
                Outcome::Deferred(MapFut::new(deferred, self.transform))
            },
        }
    }
}

} // verus!
