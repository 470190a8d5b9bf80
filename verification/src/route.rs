//! The state of one request while its filters run.
use vstd::prelude::*;
use crate::stream::BodyStream;

verus! {

/// What the filters of one request share: the request line, the headers and
/// the slot that holds the body until one filter takes it.
pub struct RouteContext {
    method: String,
    path: String,
    headers: Vec<(String, String)>,
    body: Option<BodyStream>,
}

impl RouteContext {
    /// The body that waits in the slot, if none has taken it.
    pub closed spec fn body(&self) -> Option<BodyStream> {
        self.body
    }

    /// The request method.
    pub closed spec fn method_name(&self) -> Seq<char> {
        self.method@
    }

    /// The part of the path that no filter has matched yet.
    pub closed spec fn remaining_path(&self) -> Seq<char> {
        self.path@
    }

    /// The header lines, as pairs of name and value.
    pub closed spec fn header_lines(&self) -> Seq<(String, String)> {
        self.headers@
    }

    /// Whether two contexts agree on all but the body slot.
    pub open spec fn same_request(&self, other: &RouteContext) -> bool {
        &&& self.method_name() == other.method_name()
        &&& self.remaining_path() == other.remaining_path()
        &&& self.header_lines() == other.header_lines()
    }

    /// The context of a request that just arrived, its body attached.
    pub fn new(
        method: String,
        path: String,
        headers: Vec<(String, String)>,
        body: BodyStream,
    ) -> (ctx: RouteContext)
        ensures
            ctx.body() == Some(body),
            ctx.method_name() == method@,
            ctx.remaining_path() == path@,
            ctx.header_lines() == headers@,
    {
        RouteContext { method, path, headers, body: Some(body) }
    }

    /// Takes the body out of the slot. The first call on a context returns
    /// the stream; every later call finds the slot empty and returns `None`.
    pub fn take_body(&mut self) -> (taken: Option<BodyStream>)
        ensures
            takes(*old(self), *final(self), taken),
    {
        self.body.take()
    }

    /// Whether the body still waits in the slot.
    pub fn has_body(&self) -> (b: bool)
        ensures
            b == self.body() is Some,
    {
        self.body.is_some()
    }

    /// The request method.
    pub fn method(&self) -> (m: &String)
        ensures
            m@ == self.method_name(),
    {
        &self.method
    }

    /// The part of the path that no filter has matched yet.
    pub fn path(&self) -> (p: &String)
        ensures
            p@ == self.remaining_path(),
    {
        &self.path
    }

    /// The header lines, as pairs of name and value.
    pub fn headers(&self) -> (h: &Vec<(String, String)>)
        ensures
            h@ == self.header_lines(),
    {
        &self.headers
    }
}

/// No context gives its body out twice: whatever state a context is in, the
/// call of `take_body` that follows another finds nothing, and leaves the
/// context as the first call left it.
pub proof fn lemma_second_take_finds_nothing(
    before: RouteContext,
    between: RouteContext,
    after: RouteContext,
    first: Option<BodyStream>,
    second: Option<BodyStream>,
)
    requires
        takes(before, between, first),
        takes(between, after, second),
    ensures
        second is None,
        after.body() is None,
        after.same_request(&before),
{
}

/// Whether a call of `take_body` leads from the context `before` to the
/// context `after` and returns `taken`: it returns what was in the slot,
/// leaves the slot empty and the rest of the request as it was.
pub open spec fn takes(
    before: RouteContext,
    after: RouteContext,
    taken: Option<BodyStream>,
) -> bool {
    &&& taken == before.body()
    &&& after.body() is None
    &&& after.same_request(&before)
}

} // verus!
