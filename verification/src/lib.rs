//! Core of a small real-time gateway: identity allocation, a registry of
//! live sessions, the frame-filtering relay policy, and the per-connection
//! lifecycle state machine. Network plumbing lives outside the library and
//! drives these pieces; everything here is pure logic with proved contracts.

pub mod announce;
pub mod database;
pub mod frame;
pub mod gateway;
pub mod registry;
pub mod relay;
pub mod session;
