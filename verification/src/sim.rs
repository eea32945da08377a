//! A simulated network: nodes on a grid that talk over channels on which
//! messages take time and collide.

pub mod grid;
pub mod network;
pub mod protocol;
pub mod state;
pub mod visualizer;
