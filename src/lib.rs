//! Connection-level protocol engine of a WebSocket server driven by a
//! completion-queue I/O substrate: completion tokens, the outbound buffer,
//! the HTTP upgrade handshake, the inbound frame decoder and the connection
//! lifecycle that ties them together.

pub mod io_uring;
pub mod frame;
pub mod upgrade;
pub mod send_buf;
pub mod connection;
