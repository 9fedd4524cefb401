//! A relay between a shared message broker and in-process consumers.
//!
//! The relay moves typed messages between a broker (a list-and-pub/sub
//! server) and business logic: it decodes client-originated payloads popped
//! from the inbound queue, and encodes messages bound for the persistence
//! queue and for the two publish channels.  Every payload that crosses the
//! boundary uses one canonical text encoding, and decoding accepts exactly
//! the canonical encodings: everything else is rejected whole.
//!
//! The broker calls themselves (blocking pop, head push, publish) are plain
//! transport and live with the process around the library; this crate owns
//! the encoding, the decoding, the error taxonomy and the queue discipline
//! that the relay relies on.

pub mod codec;
pub mod fields;
pub mod messages;
pub mod queue_model;
pub mod relay;
pub mod text;

use vstd::prelude::*;

verus! {

/// How a relay operation fails.
///
/// `Config` is fatal and can only arise while building the relay's
/// configuration; `Transport` stands for a broker command that did not
/// complete; `Encoding` is a payload that is not a canonical encoding of
/// any message.
#[derive(Clone, Copy, Debug, PartialEq, Eq, Structural)]
pub enum RelayError {
    Config,
    Transport,
    Encoding,
}

} // verus!
