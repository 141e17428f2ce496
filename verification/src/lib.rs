//! A low-latency audio driver framework: the binary interface between a host
//! and a driver, the driver lifecycle, and the real-time transport that moves
//! one period of audio at a time between a device and the host callback.

pub mod abi;
pub mod callback;
pub mod errno;
pub mod host;
pub mod hw;
pub mod layout;
pub mod lifecycle;
pub mod listing;
pub mod pull;
pub mod staging;
pub mod text;
pub mod transport;
pub mod umc202hd;
