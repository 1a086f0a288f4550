//! Control plane for a screen-casting system.
//!
//! One host (the caster) broadcasts its screen to remote hosts (receivers).
//! Capture, encoding, decoding and rendering are delegated to an external
//! media pipeline; the network signaling runs on background threads. This
//! crate holds the verified control plane that those collaborators drive:
//! receiver address validation, the fan-out registry that mirrors the set of
//! live signal connections into media destinations, the session models for
//! the caster and receiver roles, and the transmission state machine that
//! gates user intents.

pub mod endpoint;
pub mod ip;
pub mod machine;
pub mod region;
pub mod registry;
pub mod streaming;

pub use ip::Ipv4Host;
pub use machine::TransmissionMachine;
pub use registry::FanoutRegistry;
pub use streaming::Streaming;
