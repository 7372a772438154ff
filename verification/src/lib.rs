//! A client library for a real-time market-data feed: a protocol decoder for
//! the feed's positionally polymorphic wire messages, a connection dispatcher
//! that routes decoded updates to per-channel writers, and a model of the
//! per-channel append-only record writer.

use vstd::prelude::*;

pub mod client;
pub mod json;
pub mod message;
pub mod subscriber;
pub mod text;

verus! {

} // verus!
