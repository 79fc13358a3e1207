//! # MoonClient
//!
//! The rules of a resilient HTTP client: what is sent when, what a response means, and what is
//! written to the log. Everything here is decided on plain values. Sockets, files, clocks and
//! tasks belong to the program around the library.
//!
//! | Concern | Module |
//! |---------|--------|
//! | Settings of a client and its builder | [`client`] |
//! | The order of hooks, limiter, transport and replay for one request | [`exchange`] |
//! | Token buckets, and the rules for them | [`limiter`], [`quota`] |
//! | A budget that several processes share | [`redis_limiter`] |
//! | Bounded bodies and typed extraction | [`response`] |
//! | Errors and their messages | [`error`], [`api_errors`], [`diagnostics`], [`status`] |
//! | Endpoint addresses | [`endpoint`], [`segment`] |
//! | Log lines and where they go | [`logger`], [`moment`] |
//!
//! What a call into another crate gives is stated once, at the one function that makes the call,
//! and everything else is proved from that.

use vstd::prelude::*;

pub mod api_errors;
pub mod client;
pub mod diagnostics;
pub mod endpoint;
pub mod error;
pub mod exchange;
pub mod limiter;
pub mod logger;
pub mod moment;
pub mod quota;
pub mod redis_limiter;
pub mod response;
pub mod segment;
pub mod status;
pub mod text;
pub mod time_span;

pub use client::{MoonClient, MoonClientBuilder};
pub use endpoint::build_url;
pub use error::{MoonError, Result};
pub use limiter::{InMemoryLimiter, RequestLimiter};
pub use redis_limiter::RedisLimiter;
pub use response::FromResponse;
pub use segment::IntoSegment;
pub use time_span::TimeSpan;

verus! {

} // verus!
