//! Frame format, per-stream buffering and multiplexing logic of a tunnel
//! that carries many bidirectional streams over one connection.

pub mod frame;
pub mod stream;
pub mod mux;
