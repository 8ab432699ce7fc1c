//! A verified source-routed relay node for a simulated lossy overlay network.
//!
//! The node forwards fixed-format packets along sender-supplied routes,
//! answers misrouted or dropped traffic with negative acknowledgments sent
//! back along the reversed route, and takes part in network-wide flood
//! discovery.  Peers and the supervising controller are reached over
//! `crossbeam_channel` endpoints; the simulated loss decision draws from
//! `rand`.  Everything the node decides — how a header is validated and
//! advanced, which negative acknowledgment is produced, how a flood request
//! is deduplicated and fanned out — is verified against the contracts in
//! these modules.

pub mod channel;
pub mod drone;
pub mod flood;
pub mod packet;
pub mod rng;
pub mod routing;

pub use drone::DroneModel;
pub use drone::Emission;
pub use drone::RustafarianDrone;
pub use packet::Ack;
pub use packet::DroneCommand;
pub use packet::DroneEvent;
pub use packet::FloodRequest;
pub use packet::FloodResponse;
pub use packet::Fragment;
pub use packet::Nack;
pub use packet::NackType;
pub use packet::NodeId;
pub use packet::NodeType;
pub use packet::Packet;
pub use packet::PacketType;
pub use packet::SourceRoutingHeader;
pub use rng::PDR_UNIT;
