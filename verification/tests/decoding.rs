use std::cell::Cell;
use std::collections::BTreeMap;

use warp_body::body;
use warp_body::deferred::{Deferred, Poll};
use warp_body::filter::{filter_fn, Compose, Filter, Outcome};
use warp_body::rejection::Rejection;
use warp_body::route::RouteContext;
use warp_body::stream::{BodyStream, Frame};
use warp_body::tuple::{Cons, Nil};

#[derive(Debug, PartialEq)]
struct Employee {
    name: String,
    rate: u32,
}

impl<'de> serde::Deserialize<'de> for Employee {
    fn deserialize<D: serde::Deserializer<'de>>(deserializer: D) -> Result<Self, D::Error> {
        let mut fields: BTreeMap<String, serde_json::Value> =
            serde::Deserialize::deserialize(deserializer)?;
        let name = match fields.remove("name") {
            Some(serde_json::Value::String(name)) => name,
            _ => return Err(serde::de::Error::missing_field("name")),
        };
        let rate = match fields.remove("rate").and_then(|rate| rate.as_u64()) {
            Some(rate) if rate <= u64::from(u32::MAX) => rate as u32,
            _ => return Err(serde::de::Error::missing_field("rate")),
        };
        Ok(Employee { name, rate })
    }
}

impl serde::Serialize for Employee {
    fn serialize<S: serde::Serializer>(&self, serializer: S) -> Result<S::Ok, S::Error> {
        let mut fields: BTreeMap<&str, serde_json::Value> = BTreeMap::new();
        fields.insert("name", serde_json::Value::from(self.name.clone()));
        fields.insert("rate", serde_json::Value::from(self.rate));
        serde::Serialize::serialize(&fields, serializer)
    }
}

fn request() -> RouteContext {
    RouteContext::new("POST".to_string(), "/employees/2".to_string(), Vec::new(), BodyStream::new())
}

/// Applies the JSON filter to a fresh request, lets `chunks` arrive and then
/// the end, and polls once.
fn decode<T: serde::de::DeserializeOwned>(chunks: &[&[u8]]) -> Poll<T> {
    let mut ctx = request();
    let mut fut = match body::json::<T>().apply(&mut ctx) {
        Outcome::Deferred(fut) => fut.inner,
        _ => panic!("the body was there"),
    };
    for chunk in chunks {
        assert!(fut.deliver(Frame::Chunk(chunk.to_vec())).is_none());
    }
    fut.deliver(Frame::End);
    fut.poll()
}

#[test]
fn json_decodes_an_employee_and_the_rate_is_overridden() {
    let rate_from_path: u32 = 2;
    let mut employee = match decode::<Employee>(&[b"{\"name\":\"Sean\",\"rate\":0}"]) {
        Poll::Ready(employee) => employee,
        other => panic!("expected an employee, got {:?}", other),
    };
    assert_eq!(employee, Employee { name: "Sean".to_string(), rate: 0 });
    employee.rate = rate_from_path;
    let reply = serde_json::to_vec(&employee).unwrap();
    let got: serde_json::Value = serde_json::from_slice(&reply).unwrap();
    let want: serde_json::Value = serde_json::from_str("{\"name\":\"Sean\",\"rate\":2}").unwrap();
    assert_eq!(got, want);
}

#[test]
fn json_rejects_what_is_not_json() {
    assert!(matches!(decode::<Employee>(&[b"not-json"]), Poll::Failed(Rejection::DecodeFailure)));
}

#[test]
fn json_rejects_json_of_another_shape() {
    assert!(matches!(
        decode::<Employee>(&[b"{\"name\":\"Sean\"}"]),
        Poll::Failed(Rejection::DecodeFailure)
    ));
    assert!(matches!(decode::<u32>(&[b"\"seven\""]), Poll::Failed(Rejection::DecodeFailure)));
    assert!(matches!(decode::<u32>(&[b"7 8"]), Poll::Failed(Rejection::DecodeFailure)));
    assert!(matches!(decode::<u32>(&[]), Poll::Failed(Rejection::DecodeFailure)));
}

#[test]
fn json_yields_what_a_direct_decode_yields() {
    let text: &[u8] = b"{\"a\":[1,2,3],\"b\":{\"c\":null,\"d\":\"e\"},\"f\":true}";
    let direct: serde_json::Value = serde_json::from_slice(text).unwrap();
    match decode::<serde_json::Value>(&[text]) {
        Poll::Ready(value) => assert_eq!(value, direct),
        other => panic!("expected a value, got {:?}", other),
    }
    match decode::<Vec<i64>>(&[b"[-1, 0, 9007199254740993]"]) {
        Poll::Ready(value) => assert_eq!(value, vec![-1, 0, 9007199254740993]),
        other => panic!("expected a value, got {:?}", other),
    }
    match decode::<(String, u32)>(&[b"[\"Sean\", 2]"]) {
        Poll::Ready(value) => assert_eq!(value, ("Sean".to_string(), 2)),
        other => panic!("expected a value, got {:?}", other),
    }
}

#[test]
fn json_decodes_a_body_that_arrives_in_pieces() {
    match decode::<Employee>(&[b"{\"na", b"me\":\"Se", b"", b"an\",\"rate\"", b":41}"]) {
        Poll::Ready(employee) => {
            assert_eq!(employee, Employee { name: "Sean".to_string(), rate: 41 })
        }
        other => panic!("expected an employee, got {:?}", other),
    }
}

#[test]
fn json_waits_for_the_end_of_the_body() {
    let mut ctx = request();
    let mut fut = match body::json::<u32>().apply(&mut ctx) {
        Outcome::Deferred(fut) => fut.inner,
        _ => panic!("the body was there"),
    };
    assert!(matches!(fut.poll(), Poll::Pending));
    fut.deliver(Frame::Chunk(b"4".to_vec()));
    assert!(matches!(fut.poll(), Poll::Pending));
    fut.deliver(Frame::Chunk(b"2".to_vec()));
    assert!(matches!(fut.poll(), Poll::Pending));
    fut.deliver(Frame::End);
    assert!(matches!(fut.poll(), Poll::Ready(42)));
}

#[test]
fn json_reports_a_broken_stream_as_such() {
    let mut ctx = request();
    let mut fut = match body::json::<u32>().apply(&mut ctx) {
        Outcome::Deferred(fut) => fut.inner,
        _ => panic!("the body was there"),
    };
    fut.deliver(Frame::Chunk(b"42".to_vec()));
    fut.deliver(Frame::Abort);
    assert!(matches!(fut.poll(), Poll::Failed(Rejection::StreamFailure)));
    assert!(matches!(fut.poll(), Poll::Failed(Rejection::StreamFailure)));
}

#[test]
fn json_rejects_a_body_already_taken() {
    let mut ctx = request();
    ctx.take_body();
    assert!(matches!(
        body::json::<Employee>().apply(&mut ctx),
        Outcome::Failed(Rejection::BodyUnavailable)
    ));
}

#[test]
fn decoder_is_called_once_and_a_failure_stays() {
    let calls = Cell::new(0u32);
    let counting = |bytes: &Vec<u8>| {
        calls.set(calls.get() + 1);
        serde_json::from_slice::<u32>(bytes)
    };
    let mut ctx = request();
    let mut fut = match body::decoded_with(counting).apply(&mut ctx) {
        Outcome::Deferred(fut) => fut.inner,
        _ => panic!("the body was there"),
    };
    fut.deliver(Frame::Chunk(b"oops".to_vec()));
    assert!(matches!(fut.poll(), Poll::Pending));
    assert_eq!(calls.get(), 0);
    fut.deliver(Frame::End);
    assert!(matches!(fut.poll(), Poll::Failed(Rejection::DecodeFailure)));
    assert_eq!(calls.get(), 1);
    assert!(matches!(fut.poll(), Poll::Failed(Rejection::DecodeFailure)));
    assert!(matches!(fut.poll(), Poll::Failed(Rejection::DecodeFailure)));
    assert_eq!(calls.get(), 1);
}

#[test]
fn decoder_is_handed_the_whole_body() {
    let seen = Cell::new(0usize);
    let measuring = |bytes: &Vec<u8>| {
        seen.set(bytes.len());
        serde_json::from_slice::<String>(bytes)
    };
    let mut ctx = request();
    let mut fut = match body::decoded_with(measuring).apply(&mut ctx) {
        Outcome::Deferred(fut) => fut.inner,
        _ => panic!("the body was there"),
    };
    fut.deliver(Frame::Chunk(b"\"ab".to_vec()));
    fut.deliver(Frame::Chunk(b"cd\"".to_vec()));
    fut.deliver(Frame::End);
    assert!(matches!(fut.poll(), Poll::Ready(text) if text == "abcd"));
    assert_eq!(seen.get(), 6);
}

#[test]
fn settle_keeps_the_value_or_reports_a_decode_failure() {
    type Fut = body::JsonFut<u32, ()>;
    assert!(matches!(Fut::settle::<serde_json::Error>(Ok(5)), Poll::Ready(5)));
    let error = serde_json::from_slice::<u32>(b"x").unwrap_err();
    assert!(matches!(Fut::settle(Err(error)), Poll::Failed(Rejection::DecodeFailure)));
    assert!(matches!(Fut::settle(Err("no")), Poll::Failed(Rejection::DecodeFailure)));
}

#[test]
fn json_extracts_a_tuple_of_one() {
    let mut ctx = request();
    let mut fut = match body::json::<u32>().apply(&mut ctx) {
        Outcome::Deferred(fut) => fut,
        _ => panic!("the body was there"),
    };
    fut.deliver(Frame::Chunk(b"17".to_vec()));
    fut.deliver(Frame::End);
    assert!(matches!(fut.poll(), Poll::Ready(Cons { head: 17, tail: Nil })));
}

#[test]
fn decoder_may_read_another_format() {
    // A body of four bytes, big end first.
    let fixed = |bytes: &Vec<u8>| -> Result<u32, usize> {
        match bytes.as_slice() {
            [a, b, c, d] => Ok(u32::from_be_bytes([*a, *b, *c, *d])),
            other => Err(other.len()),
        }
    };
    let mut ctx = request();
    let mut fut = match body::decoded_with(fixed).apply(&mut ctx) {
        Outcome::Deferred(fut) => fut.inner,
        _ => panic!("the body was there"),
    };
    fut.deliver(Frame::Chunk(vec![0, 0]));
    fut.deliver(Frame::Chunk(vec![1, 2]));
    fut.deliver(Frame::End);
    assert!(matches!(fut.poll(), Poll::Ready(258)));
    let mut ctx = request();
    let mut fut = match body::decoded_with(fixed).apply(&mut ctx) {
        Outcome::Deferred(fut) => fut.inner,
        _ => panic!("the body was there"),
    };
    fut.deliver(Frame::Chunk(vec![0, 0, 1]));
    fut.deliver(Frame::End);
    assert!(matches!(fut.poll(), Poll::Failed(Rejection::DecodeFailure)));
}

#[test]
fn pipeline_overrides_the_rate_with_the_one_from_the_path() {
    let rate = |ctx: &RouteContext| -> Result<u32, Rejection> {
        ctx.path().rsplit('/').next().and_then(|last| last.parse().ok()).ok_or(Rejection::DecodeFailure)
    };
    let promote = filter_fn(rate).chain(body::json::<Employee>()).map(
        |extracted: Cons<u32, Cons<Employee, Nil>>| {
            let mut employee = extracted.tail.head;
            employee.rate = extracted.head;
            serde_json::to_vec(&employee).unwrap()
        },
    );
    let mut ctx = request();
    let mut fut = match promote.apply(&mut ctx) {
        Outcome::Deferred(fut) => fut,
        _ => panic!("the body is deferred"),
    };
    assert!(matches!(fut.poll(), Poll::Pending));
    fut.deliver(Frame::Chunk(b"{\"name\":\"Sean\",".to_vec()));
    assert!(matches!(fut.poll(), Poll::Pending));
    fut.deliver(Frame::Chunk(b"\"rate\":0}".to_vec()));
    fut.deliver(Frame::End);
    let reply = match fut.poll() {
        Poll::Ready(reply) => reply.head,
        other => panic!("expected a reply, got {:?}", other),
    };
    let got: serde_json::Value = serde_json::from_slice(&reply).unwrap();
    let want: serde_json::Value = serde_json::from_str("{\"name\":\"Sean\",\"rate\":2}").unwrap();
    assert_eq!(got, want);
}
