//! Request-body extraction for an HTTP routing pipeline.
//!
//! A request travels through a chain of filters. Each filter reads from the
//! per-request [`route::RouteContext`] and extracts a tuple of values, at
//! once or as a deferred value that the driver polls to completion; chained
//! filters extract one flat tuple. The body of a request can be taken from
//! its context once: [`body::concat`] joins its chunks into one buffer and
//! [`body::json`] decodes that buffer.
//!
//! Nothing here reads from a socket or waits. The transport delivers what
//! has arrived of a body as frames, and a poll works on what was delivered.
pub mod rejection;
pub mod tuple;
pub mod stream;
pub mod route;
pub mod deferred;
pub mod sequence;
pub mod regroup;
pub mod filter;
pub mod chain;
pub mod mapped;
pub mod accumulation;
pub mod body;
