//! Filters in a chain.
use vstd::prelude::*;
use crate::filter::{Filter, Outcome};
use crate::rejection::Rejection;
use crate::route::RouteContext;
use crate::regroup::same_stages;
use crate::sequence::{Sequence, Slot};
use crate::tuple::{Combine, Regroup};

verus! {

/// What a chain of `A` and `B` comes to.
pub type Chained<A, B> = Outcome<
    <<A as Filter>::Extract as Combine<<B as Filter>::Extract>>::Output,
    Sequence<<A as Filter>::Future, <B as Filter>::Future>,
>;

/// What a chain makes of the outcomes of its two filters, neither of which
/// failed: the concatenation of the two tuples where both are there, else
/// the sequence of the two stages.
pub open spec fn joined<A: Filter, B: Filter>(
    first: Outcome<A::Extract, A::Future>,
    second: Outcome<B::Extract, B::Future>,
) -> Chained<A, B> where A::Extract: Combine<B::Extract> {
    match (first, second) {
        (Outcome::Immediate(a), Outcome::Immediate(b)) => Outcome::Immediate(a.combined(b)),
        _ => Outcome::Deferred(Sequence { first: first.stage(), second: second.stage() }),
    }
}

/// Two filters in a chain: the second runs on the context that the first
/// left, and only if the first did not fail.
pub struct And<A, B> {
    /// The filter that runs first.
    pub first: A,
    /// The filter that runs on the context that the first left.
    pub second: B,
}

impl<A: Filter, B: Filter> And<A, B> where A::Extract: Combine<B::Extract> {
    /// Whether one application of the chain can lead from `before` to
    /// `after` and come to `out`, the first filter leaving the context
    /// `between` and coming to `first`. A first filter that fails is the
    /// end: the context stays as it left it.
    pub open spec fn goes_through(
        &self,
        before: &RouteContext,
        between: &RouteContext,
        first: Outcome<A::Extract, A::Future>,
        after: &RouteContext,
        out: Chained<A, B>,
    ) -> bool {
        &&& self.first.applies(before, between, first)
        &&& match first {
            Outcome::Failed(rejection) => after == between && out == Chained::<A, B>::Failed(
                rejection,
            ),
            _ => exists|second: Outcome<B::Extract, B::Future>| #[trigger]
                self.goes_on(between, first, second, after, out),
        }
    }

    /// Whether one application can lead from the context `before` to the
    /// context `after` and come to `out`: the first filter is applied and,
    /// unless it fails, the second to the context that it left.
    pub open spec fn apply_leads_to(
        &self,
        before: &RouteContext,
        after: &RouteContext,
        out: Chained<A, B>,
    ) -> bool {
        exists|between: RouteContext, first: Outcome<A::Extract, A::Future>| #[trigger]
            self.goes_through(before, &between, first, after, out)
    }

    /// What `usable` and `applies` say of every value of this type.
    pub proof fn lemma_filter(&self)
        ensures
            forall|this: Self| #[trigger]
                this.usable() == (this.first.usable() && this.second.usable()),
            forall|this: Self, before: RouteContext, after: RouteContext, out: Chained<A, B>|
                #[trigger] this.applies(&before, &after, out) == this.apply_leads_to(
                    &before,
                    &after,
                    out,
                ),
    {
    }

    /// Whether the second filter can lead from `between` to `after` and
    /// come to `second`, which makes the chain come to `out`.
    pub open spec fn goes_on(
        &self,
        between: &RouteContext,
        first: Outcome<A::Extract, A::Future>,
        second: Outcome<B::Extract, B::Future>,
        after: &RouteContext,
        out: Chained<A, B>,
    ) -> bool {
        &&& self.second.applies(between, after, second)
        &&& match second {
            Outcome::Failed(rejection) => out == Chained::<A, B>::Failed(rejection),
            _ => out == joined::<A, B>(first, second),
        }
    }
}

impl<A: Filter, B: Filter> Filter for And<A, B> where A::Extract: Combine<B::Extract> {
    type Extract = <A::Extract as Combine<B::Extract>>::Output;

    type Future = Sequence<A::Future, B::Future>;

    open spec fn usable(&self) -> bool {
        self.first.usable() && self.second.usable()
    }

    open spec fn applies(
        &self,
        before: &RouteContext,
        after: &RouteContext,
        out: Chained<A, B>,
    ) -> bool {
        self.apply_leads_to(before, after, out)
    }

    /// Applies the first filter and, unless that failed, the second to the
    /// same context. Where both tuples are there, their concatenation is;
    /// where one is deferred, the sequence of the two is.
    fn apply(&self, ctx: &mut RouteContext) -> (out: Chained<A, B>)
        ensures
            self.apply_leads_to(old(ctx), final(ctx), out),
    {
        let first = self.first.apply(ctx);
        let ghost between = *ctx;
        let ghost came_first = first;
        let first = match first {
            Outcome::Failed(rejection) => {
                assert(self.goes_through(
                    old(ctx),
                    &between,
                    came_first,
                    ctx,
                    Outcome::Failed(rejection),
                ));
                return Outcome::Failed(rejection);
            },
            Outcome::Immediate(tuple) => Slot::Done(tuple),
            Outcome::Deferred(deferred) => Slot::Waiting(deferred),
        };
        let second = self.second.apply(ctx);
        let ghost came_second = second;
        let out = match second {
            Outcome::Failed(rejection) => Outcome::Failed(rejection),
            Outcome::Immediate(tuple) => match first {
                Slot::Done(earlier) => Outcome::Immediate(earlier.combine(tuple)),
                first => Outcome::Deferred(Sequence { first, second: Slot::Done(tuple) }),
            },
            Outcome::Deferred(deferred) => Outcome::Deferred(
                Sequence { first, second: Slot::Waiting(deferred) },
            ),
        };
        proof {
            if out is Deferred {
                out->Deferred_0.lemma_deferred();
            }
        }
        assert(self.goes_on(&between, came_first, came_second, ctx, out));
        assert(self.goes_through(old(ctx), &between, came_first, ctx, out));
        out
    }

    proof fn lemma_puts_no_body_in(
        &self,
        before: &RouteContext,
        after: &RouteContext,
        out: Chained<A, B>,
    ) {
        let (between, first) = choose|between: RouteContext, first: Outcome<A::Extract, A::Future>|
            #[trigger] self.goes_through(before, &between, first, after, out);
        self.first.lemma_puts_no_body_in(before, &between, first);
        if !(first is Failed) {
            let second = choose|second: Outcome<B::Extract, B::Future>| #[trigger]
                self.goes_on(&between, first, second, after, out);
            self.second.lemma_puts_no_body_in(&between, after, second);
        }
    }
}

/// Fail-fast: where the first filter of a chain fails, the chain fails
/// with the same rejection and the context is as the first filter left it.
pub proof fn lemma_chain_fails_with_its_first<A: Filter, B: Filter>(
    chain: And<A, B>,
    before: RouteContext,
    after: RouteContext,
    rejection: Rejection,
) where A::Extract: Combine<B::Extract>
    requires
        chain.first.applies(&before, &after, Outcome::Failed(rejection)),
    ensures
        chain.applies(&before, &after, Outcome::Failed(rejection)),
{
    assert(chain.goes_through(
        &before,
        &after,
        Outcome::Failed(rejection),
        &after,
        Outcome::Failed(rejection),
    ));
}

/// Fail-fast: where the first filter of a chain cannot but fail on a
/// context, the second is not applied. Whatever the chain comes to and
/// leaves is what the first filter alone comes to and leaves, so nothing
/// that the second would have done to the context shows.
pub proof fn lemma_second_is_not_applied_after_failure<A: Filter, B: Filter>(
    chain: And<A, B>,
    before: RouteContext,
    after: RouteContext,
    out: Chained<A, B>,
) where A::Extract: Combine<B::Extract>
    requires
        chain.applies(&before, &after, out),
        forall|between: RouteContext, first: Outcome<A::Extract, A::Future>| #[trigger]
            chain.first.applies(&before, &between, first) ==> first is Failed,
    ensures
        out matches Outcome::Failed(rejection) && chain.first.applies(
            &before,
            &after,
            Outcome::Failed(rejection),
        ),
{
    let (between, first) = choose|between: RouteContext, first: Outcome<A::Extract, A::Future>|
        #[trigger] chain.goes_through(&before, &between, first, &after, out);
    assert(chain.first.applies(&before, &between, first));
}

/// Whether the two groupings of three chained filters came to the same:
/// the same rejection, the same tuple, or sequences of the same three
/// stages in the same order.
pub open spec fn same_extraction<A: Filter, B: Filter, C: Filter>(
    left: Chained<And<A, B>, C>,
    right: Chained<A, And<B, C>>,
) -> bool where
    A::Extract: Combine<B::Extract>,
    B::Extract: Combine<C::Extract>,
    A::Extract: Regroup<B::Extract, C::Extract>,
    <A::Extract as Combine<B::Extract>>::Output: Combine<
        C::Extract,
        Output = <A::Extract as Combine<<B::Extract as Combine<C::Extract>>::Output>>::Output,
    >,
 {
    match left {
        Outcome::Failed(rejection) => right == Chained::<A, And<B, C>>::Failed(rejection),
        Outcome::Immediate(tuple) => right == Chained::<A, And<B, C>>::Immediate(tuple),
        Outcome::Deferred(left) => right matches Outcome::Deferred(right) && exists|
            a: Slot<A::Future>,
            b: Slot<B::Future>,
            c: Slot<C::Future>,
        | #[trigger] same_stages(left, right, a, b, c),
    }
}

/// Chaining is associative, one way: whatever `(a, b), c` can come to on a
/// context, `a, (b, c)` can come to on the same context, leaving the same
/// context. Both extract one flat tuple of one type. The body is taken at
/// most once on the way: none is put in.
pub proof fn lemma_chain_regroups_to_the_right<A: Filter, B: Filter, C: Filter>(
    a: A,
    b: B,
    c: C,
    before: RouteContext,
    after: RouteContext,
    left: Chained<And<A, B>, C>,
) where
    A::Extract: Combine<B::Extract>,
    B::Extract: Combine<C::Extract>,
    A::Extract: Regroup<B::Extract, C::Extract>,
    <A::Extract as Combine<B::Extract>>::Output: Combine<
        C::Extract,
        Output = <A::Extract as Combine<<B::Extract as Combine<C::Extract>>::Output>>::Output,
    >,

    requires
        (And { first: And { first: a, second: b }, second: c }).applies(&before, &after, left),
    ensures
        exists|right: Chained<A, And<B, C>>|
            (And { first: a, second: And { first: b, second: c } }).applies(
                &before,
                &after,
                right,
            ) && #[trigger] same_extraction::<A, B, C>(left, right),
        after.body() is Some ==> after.body() == before.body(),
{
    let ab = And { first: a, second: b };
    let bc = And { first: b, second: c };
    let ab_c = And { first: ab, second: c };
    let a_bc = And { first: a, second: bc };
    ab_c.lemma_puts_no_body_in(&before, &after, left);
    let (second_ctx, both) = choose|second_ctx: RouteContext, both: Chained<A, B>| #[trigger]
        ab_c.goes_through(&before, &second_ctx, both, &after, left);
    let (first_ctx, first) = choose|first_ctx: RouteContext, first: Outcome<A::Extract, A::Future>|
        #[trigger] ab.goes_through(&before, &first_ctx, first, &second_ctx, both);
    if let Outcome::Failed(rejection) = first {
        let right = Chained::<A, And<B, C>>::Failed(rejection);
        assert(a_bc.goes_through(&before, &first_ctx, first, &after, right));
        assert(same_extraction::<A, B, C>(left, right));
    } else {
        let second = choose|second: Outcome<B::Extract, B::Future>| #[trigger]
            ab.goes_on(&first_ctx, first, second, &second_ctx, both);
        if let Outcome::Failed(rejection) = second {
            let rest = Chained::<B, C>::Failed(rejection);
            let right = Chained::<A, And<B, C>>::Failed(rejection);
            assert(bc.goes_through(&first_ctx, &second_ctx, second, &after, rest));
            assert(a_bc.goes_on(&first_ctx, first, rest, &after, right));
            assert(a_bc.goes_through(&before, &first_ctx, first, &after, right));
            assert(same_extraction::<A, B, C>(left, right));
        } else {
            let third = choose|third: Outcome<C::Extract, C::Future>| #[trigger]
                ab_c.goes_on(&second_ctx, both, third, &after, left);
            if let Outcome::Failed(rejection) = third {
                let rest = Chained::<B, C>::Failed(rejection);
                let right = Chained::<A, And<B, C>>::Failed(rejection);
                assert(bc.goes_on(&second_ctx, second, third, &after, rest));
                assert(bc.goes_through(&first_ctx, &second_ctx, second, &after, rest));
                assert(a_bc.goes_on(&first_ctx, first, rest, &after, right));
                assert(a_bc.goes_through(&before, &first_ctx, first, &after, right));
                assert(same_extraction::<A, B, C>(left, right));
            } else {
                let rest = joined::<B, C>(second, third);
                let right = joined::<A, And<B, C>>(first, rest);
                assert(bc.goes_on(&second_ctx, second, third, &after, rest));
                assert(bc.goes_through(&first_ctx, &second_ctx, second, &after, rest));
                assert(a_bc.goes_on(&first_ctx, first, rest, &after, right));
                assert(a_bc.goes_through(&before, &first_ctx, first, &after, right));
                lemma_groupings_join_alike::<A, B, C>(first, second, third);
            }
        }
    }
}

/// Chaining is associative, the other way: whatever `a, (b, c)` can come to
/// on a context, `(a, b), c` can come to on the same context, leaving the
/// same context.
pub proof fn lemma_chain_regroups_to_the_left<A: Filter, B: Filter, C: Filter>(
    a: A,
    b: B,
    c: C,
    before: RouteContext,
    after: RouteContext,
    right: Chained<A, And<B, C>>,
) where
    A::Extract: Combine<B::Extract>,
    B::Extract: Combine<C::Extract>,
    A::Extract: Regroup<B::Extract, C::Extract>,
    <A::Extract as Combine<B::Extract>>::Output: Combine<
        C::Extract,
        Output = <A::Extract as Combine<<B::Extract as Combine<C::Extract>>::Output>>::Output,
    >,

    requires
        (And { first: a, second: And { first: b, second: c } }).applies(&before, &after, right),
    ensures
        exists|left: Chained<And<A, B>, C>|
            (And { first: And { first: a, second: b }, second: c }).applies(
                &before,
                &after,
                left,
            ) && #[trigger] same_extraction::<A, B, C>(left, right),
{
    let ab = And { first: a, second: b };
    let bc = And { first: b, second: c };
    let ab_c = And { first: ab, second: c };
    let a_bc = And { first: a, second: bc };
    let (first_ctx, first) = choose|first_ctx: RouteContext, first: Outcome<A::Extract, A::Future>|
        #[trigger] a_bc.goes_through(&before, &first_ctx, first, &after, right);
    if let Outcome::Failed(rejection) = first {
        let both = Chained::<A, B>::Failed(rejection);
        let left = Chained::<And<A, B>, C>::Failed(rejection);
        assert(ab.goes_through(&before, &first_ctx, first, &first_ctx, both));
        assert(ab_c.goes_through(&before, &first_ctx, both, &after, left));
        assert(same_extraction::<A, B, C>(left, right));
    } else {
        let rest = choose|rest: Chained<B, C>| #[trigger]
            a_bc.goes_on(&first_ctx, first, rest, &after, right);
        let (second_ctx, second) = choose|
            second_ctx: RouteContext,
            second: Outcome<B::Extract, B::Future>,
        | #[trigger] bc.goes_through(&first_ctx, &second_ctx, second, &after, rest);
        if let Outcome::Failed(rejection) = second {
            let both = Chained::<A, B>::Failed(rejection);
            let left = Chained::<And<A, B>, C>::Failed(rejection);
            assert(ab.goes_on(&first_ctx, first, second, &second_ctx, both));
            assert(ab.goes_through(&before, &first_ctx, first, &second_ctx, both));
            assert(ab_c.goes_through(&before, &second_ctx, both, &after, left));
            assert(same_extraction::<A, B, C>(left, right));
        } else {
            let third = choose|third: Outcome<C::Extract, C::Future>| #[trigger]
                bc.goes_on(&second_ctx, second, third, &after, rest);
            let both = joined::<A, B>(first, second);
            assert(ab.goes_on(&first_ctx, first, second, &second_ctx, both));
            assert(ab.goes_through(&before, &first_ctx, first, &second_ctx, both));
            if let Outcome::Failed(rejection) = third {
                let left = Chained::<And<A, B>, C>::Failed(rejection);
                assert(ab_c.goes_on(&second_ctx, both, third, &after, left));
                assert(ab_c.goes_through(&before, &second_ctx, both, &after, left));
                assert(same_extraction::<A, B, C>(left, right));
            } else {
                let left = joined::<And<A, B>, C>(both, third);
                assert(ab_c.goes_on(&second_ctx, both, third, &after, left));
                assert(ab_c.goes_through(&before, &second_ctx, both, &after, left));
                lemma_groupings_join_alike::<A, B, C>(first, second, third);
            }
        }
    }
}

/// What three outcomes without a failure are joined to is the same in both
/// groupings.
proof fn lemma_groupings_join_alike<A: Filter, B: Filter, C: Filter>(
    first: Outcome<A::Extract, A::Future>,
    second: Outcome<B::Extract, B::Future>,
    third: Outcome<C::Extract, C::Future>,
) where
    A::Extract: Combine<B::Extract>,
    B::Extract: Combine<C::Extract>,
    A::Extract: Regroup<B::Extract, C::Extract>,
    <A::Extract as Combine<B::Extract>>::Output: Combine<
        C::Extract,
        Output = <A::Extract as Combine<<B::Extract as Combine<C::Extract>>::Output>>::Output,
    >,

    requires
        !(first is Failed),
        !(second is Failed),
        !(third is Failed),
    ensures
        same_extraction::<A, B, C>(
            joined::<And<A, B>, C>(joined::<A, B>(first, second), third),
            joined::<A, And<B, C>>(first, joined::<B, C>(second, third)),
        ),
{
    let left = joined::<And<A, B>, C>(joined::<A, B>(first, second), third);
    let right = joined::<A, And<B, C>>(first, joined::<B, C>(second, third));
    match (first, second, third) {
        (Outcome::Immediate(x), Outcome::Immediate(y), Outcome::Immediate(z)) => {
            x.lemma_combine_is_associative(y, z);
        },
        _ => {
            assert(left is Deferred && right is Deferred);
            assert(same_stages(
                left->Deferred_0,
                right->Deferred_0,
                first.stage(),
                second.stage(),
                third.stage(),
            ));
        },
    }
}

} // verus!
