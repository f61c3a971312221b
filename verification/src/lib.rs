//! Driver for a cycle-stepped hardware model reached through a clocked byte
//! channel: a protocol bridge that turns one-byte-per-cycle flow control
//! into addressed, cycle-counted byte transfers, and a device façade over
//! it for firmware loading, run/halt control and framebuffer access.

pub mod channel;
pub mod codec;
pub mod datawriter;
pub mod device;
pub mod error;
pub mod loader;
pub mod protobridge;
pub mod simulation;
