//! Filters and their composition.
use vstd::prelude::*;
use crate::chain::And;
use crate::deferred::{Deferred, Settled};
use crate::mapped::Mapped;
use crate::rejection::Rejection;
use crate::route::RouteContext;
use crate::sequence::Slot;
use crate::tuple::{one, Combine, Cons, Nil, One, Tuple};

verus! {

/// What the application of a filter to a request comes to.
pub enum Outcome<T, D> {
    /// The extracted tuple.
    Immediate(T),
    /// A deferred value that yields the extracted tuple.
    Deferred(D),
    /// The request is rejected.
    Failed(Rejection),
}

impl<T, D: Deferred<Output = T>> Outcome<T, D> {
    /// The stage that an outcome becomes in a chain: a tuple has its value,
    /// a deferred value waits to be polled.
    pub open spec fn stage(self) -> Slot<D> {
        match self {
            Outcome::Immediate(value) => Slot::Done(value),
            Outcome::Deferred(deferred) => Slot::Waiting(deferred),
            Outcome::Failed(_) => Slot::Taken,
        }
    }
}

/// A unit of extraction: given the context of a request, it extracts a
/// tuple of values, at once or as a deferred value, or rejects the request.
/// The context is all that one filter of a chain can leave for the next.
///
/// Each filter type of this crate that has type parameters states `applies`
/// a second time, under the name `apply_leads_to`, and promises that of its
/// `apply` too. A caller unfolds that one where Verus does not unfold the
/// trait's, which is so where a type holds a function; `lemma_filter` of
/// the type says that the two agree.
pub trait Filter: Sized {
    /// The tuple that the filter extracts.
    type Extract: Tuple;

    /// The deferred value that yields the tuple where it is not there at
    /// once.
    type Future: Deferred<Output = Self::Extract>;

    /// Whether the filter can be applied: the functions that it holds take
    /// every input.
    spec fn usable(&self) -> bool;

    /// Whether one application can lead from the context `before` to the
    /// context `after` and come to `out`.
    spec fn applies(
        &self,
        before: &RouteContext,
        after: &RouteContext,
        out: Outcome<Self::Extract, Self::Future>,
    ) -> bool;

    /// Applies the filter to the request of `ctx`.
    fn apply(&self, ctx: &mut RouteContext) -> (out: Outcome<Self::Extract, Self::Future>)
        requires
            self.usable(),
        ensures
            self.applies(old(ctx), final(ctx), out),
            out matches Outcome::Deferred(deferred) ==> deferred.live(),
    ;

    /// A filter may take the body out of the context; it puts none in. So a
    /// body that is in the context after an application is the one that was
    /// there before, and a context without a body stays without.
    proof fn lemma_puts_no_body_in(
        &self,
        before: &RouteContext,
        after: &RouteContext,
        out: Outcome<Self::Extract, Self::Future>,
    )
        requires
            self.applies(before, after, out),
        ensures
            after.body() is Some ==> after.body() == before.body(),
    ;
}

/// A filter made of a function that reads the context.
///
/// A caller that verifies its own code and chains filters does well to
/// write them as types of their own: Verus unfolds less of a type that
/// holds a function.
pub struct FilterFn<F> {
    read: F,
}

impl<F> FilterFn<F> {
    /// The function that reads the context.
    pub closed spec fn read(&self) -> F {
        self.read
    }
}

/// The filter that extracts the one value that `read` finds in the context
/// of a request, or rejects the request as `read` says. It leaves the
/// context as it is.
pub fn filter_fn<T, F: Fn(&RouteContext) -> Result<T, Rejection>>(read: F) -> (filter: FilterFn<F>)
    requires
        forall|ctx: &RouteContext| call_requires(read, (ctx,)),
    ensures
        filter.read() == read,
        filter.usable(),
{
    FilterFn { read }
}

impl<T, F: Fn(&RouteContext) -> Result<T, Rejection>> FilterFn<F> {
    /// Whether the function can be called on every context.
    pub open spec fn reads_any_context(&self) -> bool {
        forall|ctx: &RouteContext| call_requires(self.read(), (ctx,))
    }

    /// Whether one application can lead from the context `before` to the
    /// context `after` and come to `out`: the context stays as it is, and
    /// `out` holds what the function returned on it.
    pub open spec fn apply_leads_to(
        &self,
        before: &RouteContext,
        after: &RouteContext,
        out: Outcome<One<T>, Settled<One<T>>>,
    ) -> bool {
        &&& after == before
        &&& exists|found: Result<T, Rejection>| #[trigger]
            call_ensures(self.read(), (before,), found) && out == Self::outcome_of(found)
    }

    /// What the filter comes to where its function returned `found`.
    pub open spec fn outcome_of(found: Result<T, Rejection>) -> Outcome<One<T>, Settled<One<T>>> {
        match found {
            Ok(value) => Outcome::Immediate(Cons { head: value, tail: Nil }),
            Err(rejection) => Outcome::Failed(rejection),
        }
    }

    /// What `usable` and `applies` say of every value of this type.
    pub proof fn lemma_filter(&self)
        ensures
            forall|this: Self| #[trigger] this.usable() == this.reads_any_context(),
            forall|
                this: Self,
                before: RouteContext,
                after: RouteContext,
                out: Outcome<One<T>, Settled<One<T>>>,
            | #[trigger]
                this.applies(&before, &after, out) == this.apply_leads_to(&before, &after, out),
    {
    }
}

impl<T, F: Fn(&RouteContext) -> Result<T, Rejection>> Filter for FilterFn<F> {
    type Extract = One<T>;

    type Future = Settled<One<T>>;

    open spec fn usable(&self) -> bool {
        self.reads_any_context()
    }

    open spec fn applies(
        &self,
        before: &RouteContext,
        after: &RouteContext,
        out: Outcome<One<T>, Settled<One<T>>>,
    ) -> bool {
        self.apply_leads_to(before, after, out)
    }

    proof fn lemma_puts_no_body_in(
        &self,
        before: &RouteContext,
        after: &RouteContext,
        out: Outcome<One<T>, Settled<One<T>>>,
    ) {
    }

    /// Calls the function on the context.
    fn apply(&self, ctx: &mut RouteContext) -> (out: Outcome<One<T>, Settled<One<T>>>)
        ensures
            self.apply_leads_to(old(ctx), final(ctx), out),
    {
        assert(call_requires(self.read(), (&*ctx,)));
        let found = (self.read)(&*ctx);
        assert(call_ensures(self.read(), (&*ctx,), found));
        match found {
            Ok(value) => Outcome::Immediate(one(value)),
            Err(rejection) => Outcome::Failed(rejection),
        }
    }
}

/// The ways in which filters compose.
pub trait Compose: Filter {
    /// Chains `other` after this filter: `other` runs on the context that
    /// this filter left, and only if this filter did not fail. The chain
    /// extracts what this filter extracts and then what `other` does, as
    /// one tuple.
    fn chain<B: Filter>(self, other: B) -> (chain: And<Self, B>) where
        Self::Extract: Combine<B::Extract>,

        ensures
            chain.first == self,
            chain.second == other,
            chain.usable() == (self.usable() && other.usable()),
    ;

    /// Sends what this filter extracts through `transform`, which must take
    /// any tuple. The value that `transform` returns is extracted in its
    /// place, as a tuple of one.
    fn map<T, U, G: Fn(T) -> U + Copy>(self, transform: G) -> (mapped: Mapped<Self, G>) where
        Self: Filter<Extract = T>,

        requires
            forall|tuple: T| call_requires(transform, (tuple,)),
        ensures
            mapped.filter() == self,
            mapped.transform() == transform,
            mapped.usable() == self.usable(),
    ;
}

impl<F: Filter> Compose for F {
    fn chain<B: Filter>(self, other: B) -> (chain: And<F, B>) where
        F::Extract: Combine<B::Extract>,
     {
        And { first: self, second: other }
    }

    fn map<T, U, G: Fn(T) -> U + Copy>(self, transform: G) -> (mapped: Mapped<F, G>) where
        F: Filter<Extract = T>,
     {
        Mapped::new(self, transform)
    }
}

} // verus!
