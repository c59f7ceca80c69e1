//! An HTTP responder that declares one body length and sends less.
//!
//! The library holds the server's fixed configuration, the response head it
//! sends, and the per-connection protocol as a state machine whose actions a
//! driver performs on a socket.
pub mod decimal;
pub mod head;
pub mod server;
pub mod connection;
