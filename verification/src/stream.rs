//! The body of a request as a stream of byte chunks.
//!
//! The transport writes to one end as data arrives from the peer; whoever
//! took the body from the request reads from the other. Nothing here waits:
//! a read that finds no chunk reports so and returns.
use std::collections::VecDeque;
use vstd::prelude::*;

verus! {

/// What the transport has said about the end of a body.
#[derive(Clone, Copy, Debug, PartialEq, Eq, Structural)]
pub enum Closing {
    /// More chunks may still arrive.
    Open,
    /// The body is complete.
    Ended,
    /// The body broke off.
    Aborted,
}

/// What the transport delivers to a body stream.
#[derive(Debug)]
pub enum Frame {
    /// The next bytes of the body.
    Chunk(Vec<u8>),
    /// The body is complete.
    End,
    /// The body broke off.
    Abort,
}

/// What a read of a body stream finds.
#[derive(Debug)]
pub enum Next {
    /// The oldest chunk that had not been read.
    Chunk(Vec<u8>),
    /// Every chunk was read and the body is complete.
    End,
    /// Every chunk that arrived was read and more may come.
    Pending,
    /// Every chunk that arrived was read and the body broke off.
    Failed,
}

/// The chunks of a body that have arrived and were not read yet.
pub struct BodyStream {
    queued: VecDeque<Vec<u8>>,
    closing: Closing,
}

impl BodyStream {
    /// The chunks that wait to be read, oldest first.
    pub closed spec fn queued(&self) -> Seq<Seq<u8>> {
        self.queued@.map_values(|chunk: Vec<u8>| chunk@)
    }

    /// What the transport has said about the end of the body.
    pub closed spec fn closing(&self) -> Closing {
        self.closing
    }

    /// The queue after `frame` arrived: a chunk joins the end of an open
    /// stream, and nothing joins a stream that was closed.
    pub open spec fn queued_after(queued: Seq<Seq<u8>>, closing: Closing, frame: Frame) -> Seq<
        Seq<u8>,
    > {
        match frame {
            Frame::Chunk(bytes) if closing == Closing::Open => queued.push(bytes@),
            _ => queued,
        }
    }

    /// The closing after `frame` arrived: the first `End` or `Abort` closes
    /// the stream for good.
    pub open spec fn closing_after(closing: Closing, frame: Frame) -> Closing {
        if closing != Closing::Open {
            closing
        } else {
            match frame {
                Frame::Chunk(_) => Closing::Open,
                Frame::End => Closing::Ended,
                Frame::Abort => Closing::Aborted,
            }
        }
    }

    /// An open stream on which nothing has arrived.
    pub fn new() -> (stream: BodyStream)
        ensures
            stream.queued() == Seq::<Seq<u8>>::empty(),
            stream.closing() == Closing::Open,
    {
        let stream = BodyStream { queued: VecDeque::new(), closing: Closing::Open };
        assert(stream.queued() =~= Seq::<Seq<u8>>::empty());
        stream
    }

    /// The transport's end: takes in what arrived from the peer.
    pub fn deliver(&mut self, frame: Frame)
        ensures
            final(self).queued() == Self::queued_after(
                old(self).queued(),
                old(self).closing(),
                frame,
            ),
            final(self).closing() == Self::closing_after(old(self).closing(), frame),
    {
        match self.closing {
            Closing::Open => match frame {
                Frame::Chunk(bytes) => {
                    self.queued.push_back(bytes);
                    assert(self.queued() =~= old(self).queued().push(bytes@));
                },
                Frame::End => {
                    self.closing = Closing::Ended;
                },
                Frame::Abort => {
                    self.closing = Closing::Aborted;
                },
            },
            _ => {},
        }
    }

    /// The reader's end: hands out the oldest waiting chunk, or says why
    /// there is none.
    pub fn poll_next(&mut self) -> (next: Next)
        ensures
            final(self).closing() == old(self).closing(),
            match next {
                Next::Chunk(bytes) => old(self).queued().len() > 0 && bytes@ == old(
                    self,
                ).queued().first() && final(self).queued() == old(self).queued().drop_first(),
                Next::End => old(self).queued().len() == 0 && old(self).closing()
                    == Closing::Ended && final(self).queued() == old(self).queued(),
                Next::Pending => old(self).queued().len() == 0 && old(self).closing()
                    == Closing::Open && final(self).queued() == old(self).queued(),
                Next::Failed => old(self).queued().len() == 0 && old(self).closing()
                    == Closing::Aborted && final(self).queued() == old(self).queued(),
            },
    {
        match self.queued.pop_front() {
            Some(bytes) => {
                assert(self.queued() =~= old(self).queued().drop_first());
                Next::Chunk(bytes)
            },
            None => match self.closing {
                Closing::Open => Next::Pending,
                Closing::Ended => Next::End,
                Closing::Aborted => Next::Failed,
            },
        }
    }
}

} // verus!
