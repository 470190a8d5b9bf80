use std::cell::Cell;

use warp_body::body;
use warp_body::chain::And;
use warp_body::deferred::{Deferred, Poll, Settled, Single};
use warp_body::filter::{filter_fn, Compose, Filter, Outcome};
use warp_body::rejection::Rejection;
use warp_body::route::RouteContext;
use warp_body::sequence::{Sequence, Slot};
use warp_body::stream::{BodyStream, Frame};
use warp_body::tuple::{one, Combine, Cons, Nil, One};

fn request() -> RouteContext {
    RouteContext::new("POST".to_string(), "/employees/2".to_string(), Vec::new(), BodyStream::new())
}

fn pair<A, B>(a: A, b: B) -> Cons<A, One<B>> {
    Cons { head: a, tail: one(b) }
}

fn triple<A, B, C>(a: A, b: B, c: C) -> Cons<A, Cons<B, One<C>>> {
    Cons { head: a, tail: pair(b, c) }
}

/// The number that ends the path, as a filter would capture it.
fn rate(ctx: &RouteContext) -> Result<u32, Rejection> {
    match ctx.path().rsplit('/').next().and_then(|last| last.parse().ok()) {
        Some(rate) => Ok(rate),
        None => Err(Rejection::DecodeFailure),
    }
}

fn method(ctx: &RouteContext) -> Result<String, Rejection> {
    Ok(ctx.method().clone())
}

fn refuse(_: &RouteContext) -> Result<u32, Rejection> {
    Err(Rejection::StreamFailure)
}

#[test]
fn tuples_concatenate_in_order() {
    assert_eq!(Nil.combine(Nil), Nil);
    assert_eq!(Nil.combine(one(1u8)), one(1u8));
    assert_eq!(one(1u8).combine(Nil), one(1u8));
    assert_eq!(one(1u8).combine(one("two")), pair(1u8, "two"));
    assert_eq!(pair(1u8, "two").combine(one(3.5f32)), triple(1u8, "two", 3.5f32));
    assert_eq!(one(1u8).combine(pair("two", 3.5f32)), triple(1u8, "two", 3.5f32));
}

#[test]
fn tuples_concatenate_the_same_however_grouped() {
    let left = pair(1u8, 2u16).combine(one(3u32)).combine(pair(4u64, 5i8));
    let right = pair(1u8, 2u16).combine(one(3u32).combine(pair(4u64, 5i8)));
    assert_eq!(left, right);
    assert_eq!(left, Cons { head: 1u8, tail: Cons { head: 2u16, tail: triple(3u32, 4u64, 5i8) } });
}

#[test]
fn chain_of_immediate_filters_is_immediate() {
    let mut ctx = request();
    match filter_fn(rate).chain(filter_fn(method)).apply(&mut ctx) {
        Outcome::Immediate(tuple) => assert_eq!(tuple, pair(2, "POST".to_string())),
        _ => panic!("both tuples were there"),
    }
    assert!(ctx.has_body());
}

#[test]
fn chain_with_a_deferred_stage_is_deferred() {
    let mut ctx = request();
    let mut fut = match filter_fn(rate).chain(body::concat()).apply(&mut ctx) {
        Outcome::Deferred(fut) => fut,
        _ => panic!("the body is deferred"),
    };
    assert!(!ctx.has_body());
    assert!(matches!(fut.poll(), Poll::Pending));
    assert!(fut.deliver(Frame::Chunk(b"xy".to_vec())).is_none());
    assert!(fut.deliver(Frame::End).is_none());
    match fut.poll() {
        Poll::Ready(tuple) => assert_eq!(tuple, pair(2, b"xy".to_vec())),
        other => panic!("expected the tuple, got {:?}", other),
    }
}

#[test]
fn chain_fails_fast() {
    let applied = Cell::new(false);
    let watch = |_: &RouteContext| -> Result<u32, Rejection> {
        applied.set(true);
        Ok(1)
    };
    let mut ctx = request();
    let chain = filter_fn(refuse).chain(filter_fn(watch)).chain(body::concat());
    assert!(matches!(chain.apply(&mut ctx), Outcome::Failed(Rejection::StreamFailure)));
    assert!(!applied.get());
    assert!(ctx.has_body());
}

#[test]
fn chain_fails_with_the_second_filter_after_the_first_ran() {
    let mut ctx = request();
    let chain = body::concat().chain(filter_fn(refuse));
    assert!(matches!(chain.apply(&mut ctx), Outcome::Failed(Rejection::StreamFailure)));
    assert!(!ctx.has_body());
}

#[test]
fn chain_gives_the_body_to_one_filter_only() {
    let mut ctx = request();
    let chain = body::concat().chain(body::concat());
    assert!(matches!(chain.apply(&mut ctx), Outcome::Failed(Rejection::BodyUnavailable)));
    let mut ctx = request();
    let chain = filter_fn(rate).chain(body::json::<u32>()).chain(body::concat());
    assert!(matches!(chain.apply(&mut ctx), Outcome::Failed(Rejection::BodyUnavailable)));
}

fn drive<D: Deferred>(fut: &mut D, chunks: &[&[u8]]) -> Poll<D::Output> {
    for chunk in chunks {
        fut.deliver(Frame::Chunk(chunk.to_vec()));
    }
    fut.deliver(Frame::End);
    fut.poll()
}

#[test]
fn chain_is_associative() {
    let mut left_ctx = request();
    let left = filter_fn(rate).chain(body::concat()).chain(filter_fn(method));
    let mut left_fut = match left.apply(&mut left_ctx) {
        Outcome::Deferred(fut) => fut,
        _ => panic!("the body is deferred"),
    };
    let mut right_ctx = request();
    let right = filter_fn(rate).chain(body::concat().chain(filter_fn(method)));
    let mut right_fut = match right.apply(&mut right_ctx) {
        Outcome::Deferred(fut) => fut,
        _ => panic!("the body is deferred"),
    };
    assert_eq!(left_ctx.has_body(), right_ctx.has_body());
    let left_tuple = match drive(&mut left_fut, &[b"one", b"two"]) {
        Poll::Ready(tuple) => tuple,
        other => panic!("expected a tuple, got {:?}", other),
    };
    let right_tuple = match drive(&mut right_fut, &[b"one", b"two"]) {
        Poll::Ready(tuple) => tuple,
        other => panic!("expected a tuple, got {:?}", other),
    };
    assert_eq!(left_tuple, triple(2, b"onetwo".to_vec(), "POST".to_string()));
    assert_eq!(left_tuple, right_tuple);
}

#[test]
fn chain_is_associative_when_all_is_there_at_once() {
    let left = filter_fn(rate).chain(filter_fn(method)).chain(filter_fn(rate));
    let right = filter_fn(rate).chain(filter_fn(method).chain(filter_fn(rate)));
    let left_tuple = match left.apply(&mut request()) {
        Outcome::Immediate(tuple) => tuple,
        _ => panic!("all tuples were there"),
    };
    let right_tuple = match right.apply(&mut request()) {
        Outcome::Immediate(tuple) => tuple,
        _ => panic!("all tuples were there"),
    };
    assert_eq!(left_tuple, triple(2, "POST".to_string(), 2));
    assert_eq!(left_tuple, right_tuple);
}

#[test]
fn chain_is_associative_in_failure() {
    let mut left_ctx = request();
    left_ctx.take_body();
    let left = filter_fn(rate).chain(body::concat()).chain(filter_fn(refuse));
    let mut right_ctx = request();
    right_ctx.take_body();
    let right = filter_fn(rate).chain(body::concat().chain(filter_fn(refuse)));
    assert!(matches!(left.apply(&mut left_ctx), Outcome::Failed(Rejection::BodyUnavailable)));
    assert!(matches!(right.apply(&mut right_ctx), Outcome::Failed(Rejection::BodyUnavailable)));
    let left = filter_fn(rate).chain(body::concat()).chain(filter_fn(refuse));
    let right = filter_fn(rate).chain(body::concat().chain(filter_fn(refuse)));
    let mut left_ctx = request();
    let mut right_ctx = request();
    assert!(matches!(left.apply(&mut left_ctx), Outcome::Failed(Rejection::StreamFailure)));
    assert!(matches!(right.apply(&mut right_ctx), Outcome::Failed(Rejection::StreamFailure)));
    assert_eq!(left_ctx.has_body(), right_ctx.has_body());
}

#[test]
fn and_is_what_chain_builds() {
    let mut ctx = request();
    let chain = And { first: filter_fn(rate), second: filter_fn(rate) };
    match chain.apply(&mut ctx) {
        Outcome::Immediate(tuple) => assert_eq!(tuple, pair(2, 2)),
        _ => panic!("both tuples were there"),
    }
}

#[test]
fn map_transforms_a_tuple_that_is_there() {
    let mut ctx = request();
    let doubled = filter_fn(rate).map(|rate: One<u32>| rate.head * 2);
    match doubled.apply(&mut ctx) {
        Outcome::Immediate(tuple) => assert_eq!(tuple, one(4)),
        _ => panic!("the tuple was there"),
    }
}

#[test]
fn map_transforms_a_deferred_tuple_when_it_is_ready() {
    let mut ctx = request();
    let length = body::concat().map(|buf: One<Vec<u8>>| buf.head.len());
    let mut fut = match length.apply(&mut ctx) {
        Outcome::Deferred(fut) => fut,
        _ => panic!("the body is deferred"),
    };
    assert!(matches!(fut.poll(), Poll::Pending));
    match drive(&mut fut, &[b"abc", b"de"]) {
        Poll::Ready(tuple) => assert_eq!(tuple, one(5)),
        other => panic!("expected a length, got {:?}", other),
    }
}

#[test]
fn map_passes_a_rejection_through() {
    let called = Cell::new(false);
    let mut ctx = request();
    ctx.take_body();
    let mapped = body::concat().map(|buf: One<Vec<u8>>| {
        called.set(true);
        buf.head.len()
    });
    assert!(matches!(mapped.apply(&mut ctx), Outcome::Failed(Rejection::BodyUnavailable)));
    let mut ctx = request();
    let mut fut = match mapped.apply(&mut ctx) {
        Outcome::Deferred(fut) => fut,
        _ => panic!("the body is deferred"),
    };
    fut.deliver(Frame::Abort);
    assert!(matches!(fut.poll(), Poll::Failed(Rejection::StreamFailure)));
    assert!(!called.get());
}

#[test]
fn map_after_chain_sees_the_flat_tuple_in_order() {
    let mut ctx = request();
    let promote = filter_fn(rate)
        .chain(body::json::<(String, u32)>())
        .map(|tuple: Cons<u32, One<(String, u32)>>| (tuple.tail.head.0, tuple.head));
    let mut fut = match promote.apply(&mut ctx) {
        Outcome::Deferred(fut) => fut,
        _ => panic!("the body is deferred"),
    };
    match drive(&mut fut, &[b"[\"Sean\", 0]"]) {
        Poll::Ready(tuple) => assert_eq!(tuple, one(("Sean".to_string(), 2))),
        other => panic!("expected a pair, got {:?}", other),
    }
}

#[test]
fn filter_fn_leaves_the_context_alone() {
    let mut ctx = request();
    assert!(matches!(
        filter_fn(rate).apply(&mut ctx),
        Outcome::Immediate(Cons { head: 2, tail: Nil })
    ));
    assert!(matches!(filter_fn(refuse).apply(&mut ctx), Outcome::Failed(Rejection::StreamFailure)));
    assert!(ctx.has_body());
    assert_eq!(ctx.path(), "/employees/2");
}

#[test]
fn settled_hands_its_value_out_and_gives_frames_back() {
    let mut settled = Settled::new(7u8);
    assert!(matches!(settled.deliver(Frame::End), Some(Frame::End)));
    assert!(matches!(
        settled.deliver(Frame::Chunk(vec![1])),
        Some(Frame::Chunk(bytes)) if bytes == vec![1]
    ));
    assert!(matches!(settled.poll(), Poll::Ready(7)));
}

#[test]
fn single_makes_a_tuple_of_one() {
    let mut single = Single { inner: Settled::new(7u8) };
    assert!(matches!(single.deliver(Frame::Abort), Some(Frame::Abort)));
    assert!(matches!(single.poll(), Poll::Ready(Cons { head: 7, tail: Nil })));
}

fn loaded(chunks: &[&[u8]]) -> BodyStream {
    let mut stream = BodyStream::new();
    for chunk in chunks {
        stream.deliver(Frame::Chunk(chunk.to_vec()));
    }
    stream.deliver(Frame::End);
    stream
}

#[test]
fn sequence_polls_the_second_stage_once_the_first_has_its_value() {
    let calls = Cell::new(0u32);
    let counting = |bytes: &Vec<u8>| {
        calls.set(calls.get() + 1);
        serde_json::from_slice::<u32>(bytes)
    };
    let first = match body::concat().apply(&mut request()) {
        Outcome::Deferred(fut) => fut,
        _ => panic!("the body was there"),
    };
    let mut whole =
        RouteContext::new("GET".to_string(), "/".to_string(), Vec::new(), loaded(&[b"12"]));
    let second = match body::decoded_with(counting).apply(&mut whole) {
        Outcome::Deferred(fut) => fut,
        _ => panic!("the body was there"),
    };
    let mut sequence = Sequence { first: Slot::Waiting(first), second: Slot::Waiting(second) };
    assert!(matches!(sequence.poll(), Poll::Pending));
    assert!(matches!(sequence.poll(), Poll::Pending));
    assert_eq!(calls.get(), 0);
    assert!(sequence.deliver(Frame::Chunk(b"body".to_vec())).is_none());
    assert!(sequence.deliver(Frame::End).is_none());
    match sequence.poll() {
        Poll::Ready(tuple) => assert_eq!(tuple, pair(b"body".to_vec(), 12)),
        other => panic!("expected the tuple, got {:?}", other),
    }
    assert_eq!(calls.get(), 1);
}

#[test]
fn sequence_fails_with_the_stage_that_fails() {
    let first = match body::concat().apply(&mut request()) {
        Outcome::Deferred(fut) => fut,
        _ => panic!("the body was there"),
    };
    let mut sequence: Sequence<_, Settled<One<u8>>> =
        Sequence { first: Slot::Waiting(first), second: Slot::Done(one(3)) };
    sequence.deliver(Frame::Abort);
    assert!(matches!(sequence.poll(), Poll::Failed(Rejection::StreamFailure)));
    assert!(matches!(sequence.poll(), Poll::Failed(Rejection::StreamFailure)));
}

#[test]
fn sequence_offers_a_frame_to_the_stage_that_reads_the_body() {
    let second = match body::concat().apply(&mut request()) {
        Outcome::Deferred(fut) => fut,
        _ => panic!("the body was there"),
    };
    let mut sequence =
        Sequence { first: Slot::Waiting(Settled::new(one(1u8))), second: Slot::Waiting(second) };
    assert!(sequence.deliver(Frame::Chunk(b"z".to_vec())).is_none());
    assert!(sequence.deliver(Frame::End).is_none());
    match sequence.poll() {
        Poll::Ready(tuple) => assert_eq!(tuple, pair(1u8, b"z".to_vec())),
        other => panic!("expected the tuple, got {:?}", other),
    }
    let mut idle: Sequence<Settled<One<u8>>, Settled<One<u8>>> =
        Sequence { first: Slot::Done(one(1)), second: Slot::Waiting(Settled::new(one(2))) };
    assert!(matches!(idle.deliver(Frame::End), Some(Frame::End)));
    match idle.poll() {
        Poll::Ready(tuple) => assert_eq!(tuple, pair(1u8, 2u8)),
        other => panic!("expected the tuple, got {:?}", other),
    }
}
