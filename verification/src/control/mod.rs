//! The control protocol of the device service.
pub mod calls;
pub mod fingerprint;
pub mod frame;
pub mod protocol;
