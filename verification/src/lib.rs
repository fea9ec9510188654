//! Core of a remote game streaming gateway.
//!
//! The library holds the verified logic of the gateway: the packet codec for
//! the input/output channels, the video packetizer, the audio buffering
//! pipeline, the hybrid session manager with its token lifecycle, the streamer
//! process registry, the peer liveness policy, and NAT classification.
//! Network and process I/O live outside the library and hand plain values in.

pub mod api;
pub mod audio;
pub mod fuji;
mod mint;
pub mod orchestrator;
pub mod packets;
pub mod peer;
pub mod remote;
pub mod video;
pub mod session;
pub mod settings;
pub mod stun;
pub mod supervisor;
