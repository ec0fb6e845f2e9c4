//! Session coordinator of an authenticated broadcast chat server.
//!
//! The coordinator owns every session and every ban. It consumes connection
//! events one at a time and answers each with the outbound actions (writes
//! and closes) that the transport layer must perform.

pub mod model;
pub mod laws;
pub mod server;
mod table;
pub mod text;
pub mod token;
