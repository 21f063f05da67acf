//! A multi-user chat service with in-band file transfer, as a library of
//! verified state machines: framing, sessions, the chat directory and the
//! handlers of both roles.

pub mod capped_reader;
pub mod client;
mod clock;
pub mod communication;
pub mod connection;
pub mod errors;
pub mod server;
pub mod shared_map;
pub mod text;
