//! Firmware, host tooling and simulator logic of a grid of light nodes that
//! agree on one shared state over half-duplex serial links.
//!
//! Every node runs the trickle algorithm ([`trickle`]) over packets
//! ([`packet`]) that carry a [`proto::CommState`].

pub mod bootloader;
pub mod chunk;
pub mod flasher;
pub mod framer;
pub mod hal;
pub mod host;
pub mod link;
pub mod node;
pub mod packet;
pub mod proto;
pub mod rng;
pub mod sim;
pub mod text;
pub mod time;
pub mod trickle;
pub mod wire;
