//! Application-level view of a WebSocket frame. Only text and binary frames
//! carry application data; ping, pong and close frames belong to the
//! protocol layer and are never relayed.

use vstd::prelude::*;

verus! {

/// A discrete message unit of one connection.
#[derive(Clone, Debug, PartialEq, Eq)]
pub enum Frame {
    Text(String),
    Binary(Vec<u8>),
    Ping(Vec<u8>),
    Pong(Vec<u8>),
    Close,
}

impl Frame {
    /// A data frame: one that carries application payload and is eligible
    /// for relay. Control frames (ping, pong, close) are not.
    pub open spec fn is_data(self) -> bool {
        match self {
            Frame::Text(_) => true,
            Frame::Binary(_) => true,
            Frame::Ping(_) => false,
            Frame::Pong(_) => false,
            Frame::Close => false,
        }
    }

    /// Whether the relay policy forwards this frame: exactly the text and
    /// binary frames, never a control frame.
    pub fn is_relayable(&self) -> (r: bool)
        ensures
            r == self.is_data(),
    {
        match self {
            Frame::Text(_) => true,
            Frame::Binary(_) => true,
            Frame::Ping(_) => false,
            Frame::Pong(_) => false,
            Frame::Close => false,
        }
    }
}

} // verus!
