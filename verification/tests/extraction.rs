use warp_body::body;
use warp_body::deferred::{Deferred, Poll};
use warp_body::filter::{Filter, Outcome};
use warp_body::rejection::Rejection;
use warp_body::route::RouteContext;
use warp_body::stream::{BodyStream, Frame};
use warp_body::tuple::{Cons, Nil};

fn request(body: BodyStream) -> RouteContext {
    RouteContext::new("POST".to_string(), "/employees/2".to_string(), Vec::new(), body)
}

fn joining() -> body::ConcatFut {
    let mut ctx = request(BodyStream::new());
    match body::concat().apply(&mut ctx) {
        Outcome::Deferred(fut) => fut.inner,
        _ => panic!("the body was there"),
    }
}

fn ready(fut: &mut body::ConcatFut) -> Vec<u8> {
    match fut.poll() {
        Poll::Ready(buf) => buf,
        other => panic!("expected a buffer, got {:?}", other),
    }
}

#[test]
fn concat_joins_chunks_in_order() {
    let mut fut = joining();
    assert!(matches!(fut.poll(), Poll::Pending));
    assert!(fut.deliver(Frame::Chunk(b"hello ".to_vec())).is_none());
    assert!(matches!(fut.poll(), Poll::Pending));
    fut.deliver(Frame::Chunk(b"wor".to_vec()));
    fut.deliver(Frame::Chunk(b"ld".to_vec()));
    fut.deliver(Frame::End);
    assert_eq!(ready(&mut fut), b"hello world".to_vec());
}

#[test]
fn concat_gives_the_same_buffer_however_polls_are_placed() {
    let chunks: Vec<&[u8]> = vec![b"ab", b"", b"cde", b"f"];
    // Each bit of `placement` says whether a poll follows the chunk of that index.
    for placement in 0..16u32 {
        let mut fut = joining();
        for (i, chunk) in chunks.iter().enumerate() {
            fut.deliver(Frame::Chunk(chunk.to_vec()));
            if placement & (1 << i) != 0 {
                assert!(matches!(fut.poll(), Poll::Pending));
            }
        }
        fut.deliver(Frame::End);
        assert_eq!(ready(&mut fut), b"abcdef".to_vec());
    }
}

#[test]
fn concat_of_a_body_without_chunks_is_empty() {
    let mut fut = joining();
    fut.deliver(Frame::End);
    assert_eq!(ready(&mut fut), Vec::<u8>::new());
}

#[test]
fn concat_reports_its_buffer_again_on_a_later_poll() {
    let mut fut = joining();
    fut.deliver(Frame::Chunk(vec![1, 2, 3]));
    fut.deliver(Frame::End);
    assert_eq!(ready(&mut fut), vec![1, 2, 3]);
    assert_eq!(ready(&mut fut), vec![1, 2, 3]);
}

#[test]
fn concat_ignores_what_arrives_after_the_end() {
    let mut fut = joining();
    fut.deliver(Frame::Chunk(vec![7]));
    fut.deliver(Frame::End);
    fut.deliver(Frame::Chunk(vec![8]));
    fut.deliver(Frame::Abort);
    assert_eq!(ready(&mut fut), vec![7]);
}

#[test]
fn concat_fails_when_the_stream_breaks_off() {
    let mut fut = joining();
    fut.deliver(Frame::Chunk(vec![1]));
    assert!(matches!(fut.poll(), Poll::Pending));
    fut.deliver(Frame::Chunk(vec![2]));
    fut.deliver(Frame::Abort);
    assert!(matches!(fut.poll(), Poll::Failed(Rejection::StreamFailure)));
    fut.deliver(Frame::End);
    assert!(matches!(fut.poll(), Poll::Failed(Rejection::StreamFailure)));
}

#[test]
fn concat_reads_what_arrived_before_the_body_was_taken() {
    let mut stream = BodyStream::new();
    stream.deliver(Frame::Chunk(b"early ".to_vec()));
    let mut ctx = request(stream);
    let mut fut = match body::concat().apply(&mut ctx) {
        Outcome::Deferred(fut) => fut.inner,
        _ => panic!("the body was there"),
    };
    fut.deliver(Frame::Chunk(b"late".to_vec()));
    fut.deliver(Frame::End);
    assert_eq!(ready(&mut fut), b"early late".to_vec());
}

#[test]
fn concat_rejects_a_body_already_taken() {
    let mut ctx = request(BodyStream::new());
    assert!(ctx.take_body().is_some());
    match body::concat().apply(&mut ctx) {
        Outcome::Failed(rejection) => assert_eq!(rejection, Rejection::BodyUnavailable),
        _ => panic!("the body was gone"),
    }
}

#[test]
fn second_concat_on_one_request_is_rejected() {
    let mut ctx = request(BodyStream::new());
    assert!(matches!(body::concat().apply(&mut ctx), Outcome::Deferred(_)));
    assert!(matches!(
        body::concat().apply(&mut ctx),
        Outcome::Failed(Rejection::BodyUnavailable)
    ));
    assert!(matches!(
        body::json::<u32>().apply(&mut ctx),
        Outcome::Failed(Rejection::BodyUnavailable)
    ));
}

#[test]
fn concat_extracts_a_tuple_of_one() {
    let mut ctx = request(BodyStream::new());
    let mut fut = match body::concat().apply(&mut ctx) {
        Outcome::Deferred(fut) => fut,
        _ => panic!("the body was there"),
    };
    assert!(matches!(fut.poll(), Poll::Pending));
    assert!(fut.deliver(Frame::Chunk(b"abc".to_vec())).is_none());
    assert!(fut.deliver(Frame::End).is_none());
    match fut.poll() {
        Poll::Ready(tuple) => assert_eq!(tuple, Cons { head: b"abc".to_vec(), tail: Nil }),
        other => panic!("expected a tuple, got {:?}", other),
    }
}
