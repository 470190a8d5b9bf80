//! Three deferred values in sequence, grouped one way or the other.
use vstd::prelude::*;
use crate::deferred::{Deferred, Poll};
use crate::sequence::{without_value, Progress, Sequence, Slot};
use crate::stream::Frame;
use crate::tuple::{Combine, Regroup, Tuple};

verus! {

/// Whether the sequence of `(a, b), c` and the sequence of `a, (b, c)` are
/// made of the same three stages `a`, `b` and `c`. Where two stages had
/// their values from the start, the sequence holds their concatenation.
pub open spec fn same_stages<A: Deferred, B: Deferred, C: Deferred>(
    left: Sequence<Sequence<A, B>, C>,
    right: Sequence<A, Sequence<B, C>>,
    a: Slot<A>,
    b: Slot<B>,
    c: Slot<C>,
) -> bool where
    C::Output: Tuple,
    A::Output: Combine<B::Output>,
    B::Output: Combine<C::Output>,
 {
    &&& left.second == c
    &&& match left.first {
        Slot::Waiting(inner) => inner.first == a && inner.second == b,
        Slot::Done(both) => a matches Slot::Done(x) && b matches Slot::Done(y) && both
            == x.combined(y),
        Slot::Taken => false,
    }
    &&& right.first == a
    &&& match right.second {
        Slot::Waiting(inner) => inner.first == b && inner.second == c,
        Slot::Done(both) => b matches Slot::Done(y) && c matches Slot::Done(z) && both
            == y.combined(z),
        Slot::Taken => false,
    }
}

/// The two groupings of three stages are one to the driver. Where the
/// sequence of `(a, b), c` and the sequence of `a, (b, c)` are made of the
/// same stages, whatever a poll of the first can report, a poll of the
/// second can report too: the same flat tuple, the same rejection, or
/// pending, and then the two are again made of the same stages.
pub proof fn lemma_groupings_poll_alike<A: Deferred, B: Deferred, C: Deferred>(
    left: Sequence<Sequence<A, B>, C>,
    right: Sequence<A, Sequence<B, C>>,
    a: Slot<A>,
    b: Slot<B>,
    c: Slot<C>,
    left_after: Sequence<Sequence<A, B>, C>,
    out: Poll<<<A::Output as Combine<B::Output>>::Output as Combine<C::Output>>::Output>,
) where
    C::Output: Tuple,
    A::Output: Combine<B::Output>,
    B::Output: Combine<C::Output>,
    A::Output: Regroup<B::Output, C::Output>,
    <A::Output as Combine<B::Output>>::Output: Combine<
        C::Output,
        Output = <A::Output as Combine<<B::Output as Combine<C::Output>>::Output>>::Output,
    >,

    requires
        same_stages(left, right, a, b, c),
        left.polls_to(&left_after, out),
    ensures
        exists|right_after: Sequence<A, Sequence<B, C>>| #[trigger]
            right.polls_to(&right_after, out) && (out is Ready || exists|
                a: Slot<A>,
                b: Slot<B>,
                c: Slot<C>,
            | #[trigger] same_stages(left_after, right_after, a, b, c)),
{
    let (both_after, both_report) = choose|both_after: Slot<Sequence<A, B>>, report: Progress|
        #[trigger] left.first.polls_to(&both_after, report) && left.polls_on(
            both_after,
            report,
            &left_after,
            out,
        );
    // What the polls of the first two stages come to, in either grouping.
    let (a_after, a_report, b_after, b_report) = match left.first {
        Slot::Waiting(inner) => {
            let (inner_after, inner_out) = choose|
                inner_after: Sequence<A, B>,
                inner_out: Poll<<A::Output as Combine<B::Output>>::Output>,
            | #[trigger]
                inner.polls_to(&inner_after, inner_out) && both_after == Slot::<
                    Sequence<A, B>,
                >::polled(inner_after, inner_out) && both_report == without_value(inner_out);
            let (a_after, a_report) = choose|a_after: Slot<A>, a_report: Progress| #[trigger]
                inner.first.polls_to(&a_after, a_report) && inner.polls_on(
                    a_after,
                    a_report,
                    &inner_after,
                    inner_out,
                );
            if a_report is Ready {
                let (b_after, b_report) = choose|b_after: Slot<B>, b_report: Progress| #[trigger]
                    inner.second.polls_to(&b_after, b_report) && Sequence::<A, B>::ends(
                        a_after,
                        b_after,
                        b_report,
                        &inner_after,
                        inner_out,
                    );
                (a_after, a_report, b_after, b_report)
            } else {
                (a_after, a_report, b, Progress::Pending)
            }
        },
        _ => (a, Progress::Ready, b, Progress::Ready),
    };
    assert(right.first.polls_to(&a_after, a_report));
    if !(a_report is Ready) {
        let right_after = Sequence { first: a_after, second: right.second };
        assert(right.polls_on(a_after, a_report, &right_after, out));
        assert(right.polls_to(&right_after, out));
        assert(same_stages(left_after, right_after, a_after, b, c));
    } else {
        assert(b.polls_to(&b_after, b_report));
        if !(b_report is Ready) {
            let rest = right.second->Waiting_0;
            let rest_after = Sequence { first: b_after, second: c };
            let rest_out = match b_report {
                Progress::Failed(rejection) => Poll::<
                    <B::Output as Combine<C::Output>>::Output,
                >::Failed(rejection),
                _ => Poll::Pending,
            };
            assert(rest.polls_on(b_after, b_report, &rest_after, rest_out));
            assert(rest.polls_to(&rest_after, rest_out));
            let second_after = Slot::Waiting(rest_after);
            assert(right.second.polls_to(&second_after, b_report));
            let right_after = Sequence { first: a_after, second: second_after };
            assert(Sequence::<A, Sequence<B, C>>::ends(
                a_after,
                second_after,
                b_report,
                &right_after,
                out,
            ));
            assert(right.polls_on(a_after, a_report, &right_after, out));
            assert(right.polls_to(&right_after, out));
            assert(same_stages(left_after, right_after, a_after, b_after, c));
        } else {
            let (c_after, c_report) = choose|c_after: Slot<C>, c_report: Progress| #[trigger]
                left.second.polls_to(&c_after, c_report) && Sequence::<Sequence<A, B>, C>::ends(
                    both_after,
                    c_after,
                    c_report,
                    &left_after,
                    out,
                );
            let x = a_after->Done_0;
            let y = b_after->Done_0;
            assert(both_after == Slot::<Sequence<A, B>>::Done(x.combined(y)));
            if !(c_report is Ready) {
                let rest = right.second->Waiting_0;
                let rest_after = Sequence { first: b_after, second: c_after };
                let rest_out = match c_report {
                    Progress::Failed(rejection) => Poll::<
                        <B::Output as Combine<C::Output>>::Output,
                    >::Failed(rejection),
                    _ => Poll::Pending,
                };
                assert(Sequence::<B, C>::ends(b_after, c_after, c_report, &rest_after, rest_out));
                assert(rest.polls_on(b_after, b_report, &rest_after, rest_out));
                assert(rest.polls_to(&rest_after, rest_out));
                let second_after = Slot::Waiting(rest_after);
                assert(right.second.polls_to(&second_after, c_report));
                let right_after = Sequence { first: a_after, second: second_after };
                assert(Sequence::<A, Sequence<B, C>>::ends(
                    a_after,
                    second_after,
                    c_report,
                    &right_after,
                    out,
                ));
                assert(right.polls_on(a_after, a_report, &right_after, out));
                assert(right.polls_to(&right_after, out));
                assert(same_stages(left_after, right_after, a_after, b_after, c_after));
            } else {
                let z = c_after->Done_0;
                x.lemma_combine_is_associative(y, z);
                let second_after = Slot::<Sequence<B, C>>::Done(y.combined(z));
                match right.second {
                    Slot::Waiting(rest) => {
                        let rest_after = Sequence { first: Slot::Taken, second: Slot::Taken };
                        let rest_out = Poll::Ready(y.combined(z));
                        assert(Sequence::<B, C>::ends(
                            b_after,
                            c_after,
                            c_report,
                            &rest_after,
                            rest_out,
                        ));
                        assert(rest.second.polls_to(&c_after, c_report));
                        assert(rest.polls_on(b_after, b_report, &rest_after, rest_out));
                        assert(rest.polls_to(&rest_after, rest_out));
                        assert(second_after == Slot::<Sequence<B, C>>::polled(
                            rest_after,
                            rest_out,
                        ));
                        assert(c_report == without_value(rest_out));
                        assert(right.second.polls_to(&second_after, c_report));
                    },
                    Slot::Done(rest) => {
                        assert(b_after == b);
                        assert(c_after == c);
                        assert(right.second.polls_to(&second_after, c_report));
                    },
                    Slot::Taken => {},
                }
                assert(right.second.polls_to(&second_after, c_report));
                let right_after = Sequence { first: Slot::Taken, second: Slot::Taken };
                assert(Sequence::<A, Sequence<B, C>>::ends(
                    a_after,
                    second_after,
                    c_report,
                    &right_after,
                    out,
                ));
                assert(right.polls_on(a_after, a_report, &right_after, out));
                assert(right.polls_to(&right_after, out));
            }
        }
    }
}

/// The two groupings of three stages are one to the driver, the other way:
/// whatever a poll of the sequence of `a, (b, c)` can report, a poll of the
/// sequence of `(a, b), c` can report too, and the two are again made of
/// the same stages.
pub proof fn lemma_groupings_poll_alike_back<A: Deferred, B: Deferred, C: Deferred>(
    left: Sequence<Sequence<A, B>, C>,
    right: Sequence<A, Sequence<B, C>>,
    a: Slot<A>,
    b: Slot<B>,
    c: Slot<C>,
    right_after: Sequence<A, Sequence<B, C>>,
    out: Poll<<<A::Output as Combine<B::Output>>::Output as Combine<C::Output>>::Output>,
) where
    C::Output: Tuple,
    A::Output: Combine<B::Output>,
    B::Output: Combine<C::Output>,
    A::Output: Regroup<B::Output, C::Output>,
    <A::Output as Combine<B::Output>>::Output: Combine<
        C::Output,
        Output = <A::Output as Combine<<B::Output as Combine<C::Output>>::Output>>::Output,
    >,

    requires
        same_stages(left, right, a, b, c),
        right.polls_to(&right_after, out),
    ensures
        exists|left_after: Sequence<Sequence<A, B>, C>| #[trigger]
            left.polls_to(&left_after, out) && (out is Ready || exists|
                a: Slot<A>,
                b: Slot<B>,
                c: Slot<C>,
            | #[trigger] same_stages(left_after, right_after, a, b, c)),
{
    let (a_after, a_report) = choose|a_after: Slot<A>, a_report: Progress| #[trigger]
        right.first.polls_to(&a_after, a_report) && right.polls_on(
            a_after,
            a_report,
            &right_after,
            out,
        );
    if !(a_report is Ready) {
        let inner = left.first->Waiting_0;
        let inner_after = Sequence { first: a_after, second: b };
        let inner_out = match a_report {
            Progress::Failed(rejection) => Poll::<
                <A::Output as Combine<B::Output>>::Output,
            >::Failed(rejection),
            _ => Poll::Pending,
        };
        assert(inner.first.polls_to(&a_after, a_report));
        assert(inner.polls_on(a_after, a_report, &inner_after, inner_out));
        assert(inner.polls_to(&inner_after, inner_out));
        let both_after = Slot::Waiting(inner_after);
        assert(left.first.polls_to(&both_after, a_report));
        let left_after = Sequence { first: both_after, second: c };
        assert(left.polls_on(both_after, a_report, &left_after, out));
        assert(left.polls_to(&left_after, out));
        assert(same_stages(left_after, right_after, a_after, b, c));
    } else {
        let x = a_after->Done_0;
        let (rest_after, rest_report) = choose|rest_after: Slot<Sequence<B, C>>, report: Progress|
            #[trigger] right.second.polls_to(&rest_after, report) && Sequence::<
                A,
                Sequence<B, C>,
            >::ends(a_after, rest_after, report, &right_after, out);
        // What the polls of the last two stages come to, in either grouping.
        let (b_after, b_report, c_after, c_report) = match right.second {
            Slot::Waiting(rest) => {
                let (next, rest_out) = choose|
                    next: Sequence<B, C>,
                    rest_out: Poll<<B::Output as Combine<C::Output>>::Output>,
                | #[trigger]
                    rest.polls_to(&next, rest_out) && rest_after == Slot::<Sequence<B, C>>::polled(
                        next,
                        rest_out,
                    ) && rest_report == without_value(rest_out);
                let (b_after, b_report) = choose|b_after: Slot<B>, b_report: Progress| #[trigger]
                    rest.first.polls_to(&b_after, b_report) && rest.polls_on(
                        b_after,
                        b_report,
                        &next,
                        rest_out,
                    );
                if b_report is Ready {
                    let (c_after, c_report) = choose|c_after: Slot<C>, c_report: Progress|
                        #[trigger] rest.second.polls_to(&c_after, c_report) && Sequence::<
                            B,
                            C,
                        >::ends(b_after, c_after, c_report, &next, rest_out);
                    (b_after, b_report, c_after, c_report)
                } else {
                    (b_after, b_report, c, Progress::Pending)
                }
            },
            _ => (b, Progress::Ready, c, Progress::Ready),
        };
        assert(b.polls_to(&b_after, b_report));
        if !(b_report is Ready) {
            let inner = left.first->Waiting_0;
            let inner_after = Sequence { first: a_after, second: b_after };
            let inner_out = match b_report {
                Progress::Failed(rejection) => Poll::<
                    <A::Output as Combine<B::Output>>::Output,
                >::Failed(rejection),
                _ => Poll::Pending,
            };
            assert(inner.first.polls_to(&a_after, a_report));
            assert(inner.second.polls_to(&b_after, b_report));
            assert(Sequence::<A, B>::ends(a_after, b_after, b_report, &inner_after, inner_out));
            assert(inner.polls_on(a_after, a_report, &inner_after, inner_out));
            assert(inner.polls_to(&inner_after, inner_out));
            let both_after = Slot::Waiting(inner_after);
            assert(left.first.polls_to(&both_after, b_report));
            let left_after = Sequence { first: both_after, second: c };
            assert(left.polls_on(both_after, b_report, &left_after, out));
            assert(left.polls_to(&left_after, out));
            assert(same_stages(left_after, right_after, a_after, b_after, c));
        } else {
            let y = b_after->Done_0;
            assert(c.polls_to(&c_after, c_report));
            let both_after = Slot::<Sequence<A, B>>::Done(x.combined(y));
            match left.first {
                Slot::Waiting(inner) => {
                    let inner_after = Sequence { first: Slot::Taken, second: Slot::Taken };
                    let inner_out = Poll::Ready(x.combined(y));
                    assert(inner.first.polls_to(&a_after, a_report));
                    assert(inner.second.polls_to(&b_after, b_report));
                    assert(Sequence::<A, B>::ends(
                        a_after,
                        b_after,
                        b_report,
                        &inner_after,
                        inner_out,
                    ));
                    assert(inner.polls_on(a_after, a_report, &inner_after, inner_out));
                    assert(inner.polls_to(&inner_after, inner_out));
                    assert(both_after == Slot::<Sequence<A, B>>::polled(inner_after, inner_out));
                },
                _ => {
                    assert(a_after == a);
                    assert(b_after == b);
                },
            }
            assert(left.first.polls_to(&both_after, Progress::Ready));
            assert(left.second.polls_to(&c_after, c_report));
            if !(c_report is Ready) {
                let left_after = Sequence { first: both_after, second: c_after };
                assert(Sequence::<Sequence<A, B>, C>::ends(
                    both_after,
                    c_after,
                    c_report,
                    &left_after,
                    out,
                ));
                assert(left.polls_on(both_after, Progress::Ready, &left_after, out));
                assert(left.polls_to(&left_after, out));
                assert(same_stages(left_after, right_after, a_after, b_after, c_after));
            } else {
                let z = c_after->Done_0;
                x.lemma_combine_is_associative(y, z);
                let left_after = Sequence { first: Slot::Taken, second: Slot::Taken };
                assert(Sequence::<Sequence<A, B>, C>::ends(
                    both_after,
                    c_after,
                    c_report,
                    &left_after,
                    out,
                ));
                assert(left.polls_on(both_after, Progress::Ready, &left_after, out));
                assert(left.polls_to(&left_after, out));
            }
        }
    }
}

/// A frame reaches the same stage in both groupings. Where the sequence
/// of `(a, b), c` and the sequence of `a, (b, c)` are made of the same
/// stages, whatever the offer of a frame to the first can lead to, the
/// offer to the second can lead to as well: the same frame comes back, or
/// none, and the two are again made of the same stages.
pub proof fn lemma_groupings_pass_on_alike<A: Deferred, B: Deferred, C: Deferred>(
    left: Sequence<Sequence<A, B>, C>,
    right: Sequence<A, Sequence<B, C>>,
    a: Slot<A>,
    b: Slot<B>,
    c: Slot<C>,
    frame: Frame,
    left_after: Sequence<Sequence<A, B>, C>,
    back: Option<Frame>,
) where
    C::Output: Tuple,
    A::Output: Combine<B::Output>,
    B::Output: Combine<C::Output>,
    <A::Output as Combine<B::Output>>::Output: Combine<C::Output>,
    A::Output: Combine<<B::Output as Combine<C::Output>>::Output>,

    requires
        same_stages(left, right, a, b, c),
        left.passes_on(frame, &left_after, back),
    ensures
        exists|right_after: Sequence<A, Sequence<B, C>>| #[trigger]
            right.passes_on(frame, &right_after, back) && exists|
                a: Slot<A>,
                b: Slot<B>,
                c: Slot<C>,
            | #[trigger] same_stages(left_after, right_after, a, b, c),
{
    let from_both = choose|from_both: Option<Frame>| #[trigger]
        left.first.passes_on(frame, &left_after.first, from_both) && left.passes_further(
            from_both,
            &left_after,
            back,
        );
    // What the first stage gives back, and what the first two stages become.
    let (from_a, a_after, b_after) = match left.first {
        Slot::Waiting(inner) => {
            let inner_after = choose|inner_after: Sequence<A, B>|
                left_after.first == Slot::Waiting(inner_after) && #[trigger] inner.passes_on(
                    frame,
                    &inner_after,
                    from_both,
                );
            let from_a = choose|from_a: Option<Frame>| #[trigger]
                inner.first.passes_on(frame, &inner_after.first, from_a) && inner.passes_further(
                    from_a,
                    &inner_after,
                    from_both,
                );
            (from_a, inner_after.first, inner_after.second)
        },
        _ => (Some(frame), a, b),
    };
    let c_after = left_after.second;
    assert(right.first.passes_on(frame, &a_after, from_a));
    let second_after = match right.second {
        Slot::Waiting(rest) => {
            let rest_after = Sequence { first: b_after, second: c_after };
            if let Some(onward) = from_a {
                assert(rest.first.passes_on(onward, &rest_after.first, from_both));
                assert(rest.passes_further(from_both, &rest_after, back));
                assert(rest.passes_on(onward, &rest_after, back));
            }
            Slot::Waiting(rest_after)
        },
        _ => right.second,
    };
    let right_after = Sequence { first: a_after, second: second_after };
    assert(right.passes_further(from_a, &right_after, back));
    assert(right.passes_on(frame, &right_after, back));
    assert(same_stages(left_after, right_after, a_after, b_after, c_after));
}

/// A frame reaches the same stage in both groupings, the other way:
/// whatever the offer of a frame to the sequence of `a, (b, c)` can lead
/// to, the offer to the sequence of `(a, b), c` can lead to as well.
pub proof fn lemma_groupings_pass_on_alike_back<A: Deferred, B: Deferred, C: Deferred>(
    left: Sequence<Sequence<A, B>, C>,
    right: Sequence<A, Sequence<B, C>>,
    a: Slot<A>,
    b: Slot<B>,
    c: Slot<C>,
    frame: Frame,
    right_after: Sequence<A, Sequence<B, C>>,
    back: Option<Frame>,
) where
    C::Output: Tuple,
    A::Output: Combine<B::Output>,
    B::Output: Combine<C::Output>,
    <A::Output as Combine<B::Output>>::Output: Combine<C::Output>,
    A::Output: Combine<<B::Output as Combine<C::Output>>::Output>,

    requires
        same_stages(left, right, a, b, c),
        right.passes_on(frame, &right_after, back),
    ensures
        exists|left_after: Sequence<Sequence<A, B>, C>| #[trigger]
            left.passes_on(frame, &left_after, back) && exists|
                a: Slot<A>,
                b: Slot<B>,
                c: Slot<C>,
            | #[trigger] same_stages(left_after, right_after, a, b, c),
{
    let from_a = choose|from_a: Option<Frame>| #[trigger]
        right.first.passes_on(frame, &right_after.first, from_a) && right.passes_further(
            from_a,
            &right_after,
            back,
        );
    let a_after = right_after.first;
    // What the second stage gives back, and what the last two stages become.
    let (from_b, b_after, c_after) = match (from_a, right.second) {
        (Some(onward), Slot::Waiting(rest)) => {
            let rest_after = choose|rest_after: Sequence<B, C>|
                right_after.second == Slot::Waiting(rest_after) && #[trigger] rest.passes_on(
                    onward,
                    &rest_after,
                    back,
                );
            let from_b = choose|from_b: Option<Frame>| #[trigger]
                rest.first.passes_on(onward, &rest_after.first, from_b) && rest.passes_further(
                    from_b,
                    &rest_after,
                    back,
                );
            (from_b, rest_after.first, rest_after.second)
        },
        (Some(onward), _) => (Some(onward), b, c),
        (None, _) => (None, b, c),
    };
    let both_after = match left.first {
        Slot::Waiting(inner) => {
            let inner_after = Sequence { first: a_after, second: b_after };
            assert(inner.first.passes_on(frame, &inner_after.first, from_a));
            assert(inner.passes_further(from_a, &inner_after, from_b));
            assert(inner.passes_on(frame, &inner_after, from_b));
            Slot::Waiting(inner_after)
        },
        _ => left.first,
    };
    let left_after = Sequence { first: both_after, second: c_after };
    assert(left.first.passes_on(frame, &left_after.first, from_b));
    assert(left.passes_further(from_b, &left_after, back));
    assert(left.passes_on(frame, &left_after, back));
    assert(same_stages(left_after, right_after, a_after, b_after, c_after));
}

} // verus!
