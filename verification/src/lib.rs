//! The decision logic of a network block device client and its device service.
//!
//! Sockets, timers, kernel calls and remote procedures live outside this crate.
//! Whatever has to wait for one of them is a step function here: it says what to
//! do next, and is handed what came of it.
pub mod attach;
pub mod attach_calls;
pub mod bridge;
pub mod bridge_calls;
pub mod bytes;
pub mod control;
pub mod create;
pub mod create_calls;
pub mod endpoint;
pub mod engine;
pub mod engine_calls;
pub mod engine_laws;
pub mod errno;
pub mod errors;
pub mod nbd;
pub mod nbd_calls;
pub mod ordered;
pub mod rpc;
pub mod session;
pub mod session_calls;
pub mod text;
pub mod text_calls;
pub mod time;
pub mod ublk;
