//! A multi-room chat service, verified.
//!
//! The crate holds the logic of the service: the messages that travel between
//! client and server, their byte layout, the length-prefixed frames that carry
//! them, the registry of sessions and rooms, and the rules by which a request
//! becomes deliveries. Sockets, tasks and the terminal stay with the caller.

pub mod model;
pub mod text;
pub mod registry;
pub mod command;
pub mod request;
pub mod server;
pub mod codec;
pub mod wire;
pub mod client;
pub mod ui;
pub mod login;
