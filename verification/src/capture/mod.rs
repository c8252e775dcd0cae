//! The acquisition boundary: abstract contracts for interface enumeration and
//! packet retrieval, so scripted doubles and OS-backed implementations can be
//! swapped without touching controller logic.

pub mod interface;
pub mod packet_source;

pub use interface::InterfaceProvider;
pub use interface::MockInterfaceProvider;
pub use packet_source::MockPacketSource;
pub use packet_source::NullPacketSource;
pub use packet_source::PacketSource;
pub use packet_source::RawFrame;
