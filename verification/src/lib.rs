//! Client-side core of a remote conversational-agent protocol.
//!
//! The library covers the pure logic of the protocol: building the request
//! envelopes for the three remote operations, decoding the line-positional
//! text grammar that carries plugin metadata inside chat replies, and
//! planning the persistence of a chat turn as one atomic batch of writes.
//! The network transport and the relational store are collaborators that a
//! host program wires around these functions.

pub mod plugins;
pub mod protocol;
pub mod text;
pub mod turns;
