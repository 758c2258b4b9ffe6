//! Identities of connections, logical streams and directed byte events.

use vstd::prelude::*;

verus! {

/// Direction of a captured chunk, relative to the connection's initiator.
#[derive(Clone, Copy, PartialEq, Eq, Structural, Debug)]
pub enum Direction {
    /// From the initiator to the responder.
    Outbound,
    /// From the responder to the initiator.
    Inbound,
}

impl Direction {
    /// The opposite direction.
    pub open spec fn flip(&self) -> Direction {
        match self {
            Direction::Outbound => Direction::Inbound,
            Direction::Inbound => Direction::Outbound,
        }
    }
}

/// Sub-stream discriminator of a logical stream: either the physical
/// connection itself, or one multiplexed sub-stream inside it.
#[derive(Clone, Copy, PartialEq, Eq, Structural, Debug)]
pub enum SubStream {
    /// The physical connection, before demultiplexing.
    Main,
    /// One logical sub-stream, by the identifier carried in the
    /// multiplexer's framing.
    Sub(u64),
}

/// Identity of one logical byte stream: a physical connection, possibly
/// narrowed to one multiplexed sub-stream.
#[derive(Clone, Copy, PartialEq, Eq, Structural, Debug)]
pub struct StreamId {
    /// The physical captured socket pair this stream belongs to.
    pub connection: u64,
    /// Which logical stream inside that connection.
    pub sub: SubStream,
}

impl StreamId {
    /// The identity of a physical connection before demultiplexing.
    pub fn main(connection: u64) -> (r: StreamId)
        ensures
            r == (StreamId { connection, sub: SubStream::Main }),
    {
        StreamId { connection, sub: SubStream::Main }
    }
}

/// Tag of one captured chunk: which stream it belongs to, which way it
/// went, and its position among the chunks of that (stream, direction)
/// pair.
#[derive(Clone, Copy, PartialEq, Eq, Structural, Debug)]
pub struct DirectedId {
    /// The logical stream the bytes belong to.
    pub stream: StreamId,
    /// Which way the bytes went.
    pub direction: Direction,
    /// Position of this chunk among the chunks of this (stream,
    /// direction) pair, starting at zero, increasing by one.
    pub sequence: u64,
}

} // verus!
