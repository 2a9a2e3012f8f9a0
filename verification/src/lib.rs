//! Decision logic of a small MJPEG-over-HTTP streaming server.
//!
//! The server answers every connection with an endless
//! `multipart/x-mixed-replace` stream that replays a fixed set of frames.
//! This library holds everything the server decides: when a request counts
//! as received, which bytes go out and in what order, when to pause, and when
//! a connection or the whole server ends. Sockets, timers and the task
//! scheduler belong to the program around it, which performs each action the
//! library asks for and reports back what happened.

pub mod acceptor;
pub mod connection;
pub mod frames;
pub mod framing;
pub mod server;
pub mod wire;
