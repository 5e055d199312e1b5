//! Packets of the netcode protocol.
use vstd::prelude::*;

verus! {

/// A packet of the netcode protocol.
#[derive(Debug)]
pub enum PacketType {
    /// Input from client to server.
    Input {
        /// Client tick when the input was generated.
        tick: u64,
        /// Encoded input.
        data: Vec<u8>,
    },
    /// State snapshot from server to client.
    StateSnapshot {
        /// Server tick of the state.
        tick: u64,
        /// Encoded model state.
        data: Vec<u8>,
    },
    /// State delta from server to client.
    StateDelta {
        /// Base tick, whose state the client should have.
        base_tick: u64,
        /// Tick after applying the delta.
        target_tick: u64,
        /// Encoded delta.
        data: Vec<u8>,
    },
    /// Acknowledgment.
    Ack {
        /// Tick being acknowledged.
        tick: u64,
    },
    /// Ping for latency measurement.
    Ping {
        /// Timestamp when the ping was sent.
        timestamp: u64,
    },
    /// Pong response.
    Pong {
        /// The ping's timestamp.
        timestamp: u64,
    },
}

} // verus!
