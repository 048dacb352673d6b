//! The device service.
pub mod device;
pub mod index;
pub mod laws;
pub mod manager;
pub mod manager_calls;
pub mod metrics;
pub mod registry;
pub mod runtime;
pub mod runtime_calls;
pub mod server;
pub mod server_calls;
