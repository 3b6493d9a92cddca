//! Host-side core of a wireless multi-touch trackpad: wire framing, the
//! message envelope, admission of clients, routing of frames, the touch
//! emission engine, the latency tracker, and the choice of network
//! interfaces and configuration defaults.

pub mod varint;
pub mod message;
pub mod emitter;
pub mod latency;
pub mod registry;
pub mod admission;
pub mod router;
pub mod params;
pub mod config;
pub mod interfaces;
