//! Two deferred values in sequence.
use vstd::prelude::*;
use crate::deferred::{Deferred, Poll};
use crate::rejection::Rejection;
use crate::stream::Frame;
use crate::tuple::{Combine, Tuple};

verus! {

/// What a poll reports, the value left out.
#[derive(Clone, Copy, Debug, PartialEq, Eq, Structural)]
pub enum Progress {
    /// Not yet.
    Pending,
    /// Done, with a value.
    Ready,
    /// Done, without a value.
    Failed(Rejection),
}

/// What a poll reported, with the value left out.
pub open spec fn without_value<T>(out: Poll<T>) -> Progress {
    match out {
        Poll::Pending => Progress::Pending,
        Poll::Ready(_) => Progress::Ready,
        Poll::Failed(rejection) => Progress::Failed(rejection),
    }
}

/// One of the two stages of a sequence.
pub enum Slot<D: Deferred> {
    /// The stage is still to be polled.
    Waiting(D),
    /// The stage has its value.
    Done(D::Output),
    /// The value was handed out with the tuple of its sequence.
    Taken,
}

impl<D: Deferred> Slot<D> {
    /// Whether the stage can take part in a poll of its sequence.
    pub open spec fn live(&self) -> bool {
        match self {
            Slot::Waiting(stage) => stage.live(),
            Slot::Done(_) => true,
            Slot::Taken => false,
        }
    }

    /// Whether the offer of `frame` leads from `self` to `after` and gives
    /// `back`: a waiting stage is offered the frame, another gives it back.
    pub open spec fn passes_on(&self, frame: Frame, after: &Self, back: Option<Frame>) -> bool {
        match self {
            Slot::Waiting(stage) => exists|next: D|
                after == Slot::Waiting(next) && #[trigger] stage.passes_on(frame, &next, back),
            _ => after == self && back == Some(frame),
        }
    }

    /// What a stage becomes by a poll that left `next` and reported `out`:
    /// it has its value if `out` holds one, else it is `next` and waits.
    pub open spec fn polled(next: D, out: Poll<D::Output>) -> Slot<D> {
        match out {
            Poll::Ready(value) => Slot::Done(value),
            _ => Slot::Waiting(next),
        }
    }

    /// Whether a poll leads from `self` to `after`: a waiting stage is
    /// polled and `report` is what it said, with the value left out; a
    /// stage that has its value stays and reports ready.
    pub open spec fn polls_to(&self, after: &Self, report: Progress) -> bool {
        match self {
            Slot::Waiting(stage) => exists|next: D, out: Poll<D::Output>| #[trigger]
                stage.polls_to(&next, out) && *after == Self::polled(next, out) && report
                    == without_value(out),
            Slot::Done(_) => after == self && report is Ready,
            Slot::Taken => false,
        }
    }

    /// Offers a frame to the stage.
    fn deliver(&mut self, frame: Frame) -> (back: Option<Frame>)
        ensures
            old(self).passes_on(frame, final(self), back),
            final(self).live() == old(self).live(),
    {
        let mut slot = Slot::Taken;
        core::mem::swap(self, &mut slot);
        match slot {
            Slot::Waiting(mut stage) => {
                let ghost before = stage;
                let back = stage.deliver(frame);
                assert(before.passes_on(frame, &stage, back));
                *self = Slot::Waiting(stage);
                back
            },
            other => {
                *self = other;
                Some(frame)
            },
        }
    }

    /// Brings the stage forward by one poll.
    fn poll(&mut self) -> (report: Progress)
        requires
            old(self).live(),
        ensures
            old(self).polls_to(final(self), report),
            final(self).live(),
            report is Ready ==> *final(self) is Done,
    {
        let mut slot = Slot::Taken;
        core::mem::swap(self, &mut slot);
        match slot {
            Slot::Waiting(mut stage) => {
                let ghost before = stage;
                let out = stage.poll();
                assert(before.polls_to(&stage, out));
                match out {
                    Poll::Pending => {
                        *self = Slot::Waiting(stage);
                        Progress::Pending
                    },
                    Poll::Failed(rejection) => {
                        *self = Slot::Waiting(stage);
                        Progress::Failed(rejection)
                    },
                    Poll::Ready(value) => {
                        *self = Slot::Done(value);
                        Progress::Ready
                    },
                }
            },
            other => {
                *self = other;
                Progress::Ready
            },
        }
    }

    /// Takes the value out of a stage that has it.
    fn take(&mut self) -> (value: D::Output)
        requires
            *old(self) is Done,
        ensures
            *old(self) == Slot::<D>::Done(value),
            *final(self) is Taken,
    {
        let mut slot = Slot::Taken;
        core::mem::swap(self, &mut slot);
        match slot {
            Slot::Done(value) => value,
            _ => vstd::pervasive::unreached(),
        }
    }
}

/// Two deferred values, the second polled once the first has its value.
/// Its own value is the concatenation of theirs, in that order.
pub struct Sequence<A: Deferred, B: Deferred> {
    /// The stage that is polled first.
    pub first: Slot<A>,
    /// The stage that is polled once the first has its value.
    pub second: Slot<B>,
}

impl<A: Deferred, B: Deferred> Sequence<A, B> where
    B::Output: Tuple,
    A::Output: Combine<B::Output>,
 {
    /// Whether a poll can lead from `self` to `after` and report `out`:
    /// the first stage is polled and, if it is ready, the second.
    pub open spec fn poll_leads_to(
        &self,
        after: &Self,
        out: Poll<<A::Output as Combine<B::Output>>::Output>,
    ) -> bool {
        exists|first: Slot<A>, report: Progress| #[trigger]
            self.first.polls_to(&first, report) && self.polls_on(first, report, after, out)
    }

    /// Whether the offer of `frame` leads from `self` to `after` and gives
    /// `back`: the frame is offered to the first stage and, if that gives
    /// it back, to the second.
    pub open spec fn offer_leads_to(
        &self,
        frame: Frame,
        after: &Self,
        back: Option<Frame>,
    ) -> bool {
        exists|offered: Option<Frame>| #[trigger]
            self.first.passes_on(frame, &after.first, offered) && self.passes_further(
                offered,
                after,
                back,
            )
    }

    /// What `live`, `polls_to` and `passes_on` say of every value of this
    /// type.
    pub proof fn lemma_deferred(&self)
        ensures
            forall|this: Self| #[trigger] this.live() == (this.first.live() && this.second.live()),
            forall|
                this: Self,
                after: Self,
                out: Poll<<A::Output as Combine<B::Output>>::Output>,
            | #[trigger]
                this.polls_to(&after, out) == this.poll_leads_to(&after, out),
            forall|this: Self, frame: Frame, after: Self, back: Option<Frame>| #[trigger]
                this.passes_on(frame, &after, back) == this.offer_leads_to(frame, &after, back),
    {
    }

    /// Whether a poll of the sequence can lead to `after` and report `out`,
    /// the poll of its first stage having left `first` and reported
    /// `report`. The second stage is polled only if the first is ready.
    pub open spec fn polls_on(
        &self,
        first: Slot<A>,
        report: Progress,
        after: &Self,
        out: Poll<<A::Output as Combine<B::Output>>::Output>,
    ) -> bool {
        match report {
            Progress::Ready => exists|second: Slot<B>, report: Progress| #[trigger]
                self.second.polls_to(&second, report) && Self::ends(
                    first,
                    second,
                    report,
                    after,
                    out,
                ),
            _ => after.first == first && after.second == self.second && without_value(out)
                == report,
        }
    }

    /// Whether the offer of a frame to the sequence can lead to `after` and
    /// give `back`, the first stage having given back `offered`. The second
    /// stage is offered what the first gave back.
    pub open spec fn passes_further(
        &self,
        offered: Option<Frame>,
        after: &Self,
        back: Option<Frame>,
    ) -> bool {
        match offered {
            None => after.second == self.second && back is None,
            Some(frame) => self.second.passes_on(frame, &after.second, back),
        }
    }

    /// Whether a poll of the sequence has led to `after` and reported
    /// `out`, the polls of its stages having left `first`, which is ready,
    /// and `second`, the latter reporting `report`. Where both are ready,
    /// their values are handed out as one tuple.
    pub open spec fn ends(
        first: Slot<A>,
        second: Slot<B>,
        report: Progress,
        after: &Self,
        out: Poll<<A::Output as Combine<B::Output>>::Output>,
    ) -> bool {
        match report {
            Progress::Ready => first matches Slot::Done(a) && second matches Slot::Done(b) && out
                == Poll::Ready(a.combined(b)) && after.first is Taken && after.second is Taken,
            _ => after.first == first && after.second == second && without_value(out) == report,
        }
    }
}

impl<A: Deferred, B: Deferred> Deferred for Sequence<A, B> where
    B::Output: Tuple,
    A::Output: Combine<B::Output>,
 {
    type Output = <A::Output as Combine<B::Output>>::Output;

    open spec fn live(&self) -> bool {
        self.first.live() && self.second.live()
    }

    open spec fn polls_to(
        &self,
        after: &Self,
        out: Poll<<A::Output as Combine<B::Output>>::Output>,
    ) -> bool {
        self.poll_leads_to(after, out)
    }

    open spec fn passes_on(&self, frame: Frame, after: &Self, back: Option<Frame>) -> bool {
        self.offer_leads_to(frame, after, back)
    }

    /// Polls the first stage until it has its value, then the second, and
    /// hands out the two values as one tuple once both are there. A stage
    /// that fails is the failure of the sequence.
    fn poll(&mut self) -> (out: Poll<<A::Output as Combine<B::Output>>::Output>)
        ensures
            old(self).poll_leads_to(final(self), out),
    {
        match self.first.poll() {
            Progress::Pending => {
                return Poll::Pending;
            },
            Progress::Failed(rejection) => {
                return Poll::Failed(rejection);
            },
            Progress::Ready => {},
        }
        match self.second.poll() {
            Progress::Pending => {
                return Poll::Pending;
            },
            Progress::Failed(rejection) => {
                return Poll::Failed(rejection);
            },
            Progress::Ready => {},
        }
        let a = self.first.take();
        let b = self.second.take();
        Poll::Ready(a.combine(b))
    }

    /// Offers the frame to the first stage and, if that gives it back, to
    /// the second.
    fn deliver(&mut self, frame: Frame) -> (back: Option<Frame>)
        ensures
            old(self).offer_leads_to(frame, final(self), back),
    {
        match self.first.deliver(frame) {
            None => None,
            Some(frame) => self.second.deliver(frame),
        }
    }
}

/// Sequencing, not merging: while the first stage of a sequence cannot
/// yield its value, a poll of the sequence leaves the second stage as it
/// is and hands out no tuple.
pub proof fn lemma_second_stage_waits_for_the_first<A: Deferred, B: Deferred>(
    sequence: Sequence<A, B>,
    after: Sequence<A, B>,
    out: Poll<<A::Output as Combine<B::Output>>::Output>,
)
    where
        B::Output: Tuple,
        A::Output: Combine<B::Output>,

    requires
        sequence.polls_to(&after, out),
        sequence.first matches Slot::Waiting(stage) && forall|
            next: A,
            polled: Poll<A::Output>,
        | #[trigger] stage.polls_to(&next, polled) ==> !(polled is Ready),
    ensures
        after.second == sequence.second,
        !(out is Ready),
{
}

} // verus!
