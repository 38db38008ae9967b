//! Control firmware core for an addressable-LED display node.
//!
//! A central controller streams per-frame pixel data over UDP; the node
//! reconstructs a flat RGB buffer from possibly many fragments and drives a
//! LED string at a fixed refresh rate while staying discoverable. This crate
//! holds the verified core: the wire codec, the gamma/dither stage, the frame
//! reassembly state machine, the liveness supervisor's decisions, and the
//! single-slot frame handoff buffer. Network, LED and firmware transports are
//! collaborators outside the crate.

pub mod dithering;
pub mod handoff;
pub mod led_state;
pub mod network;
pub mod pixel;
pub mod proto;
pub mod supervisor;
