//! The application-protocol layer: the port classifier, the per-protocol
//! decoders, and the composite that dispatches between them.

pub mod buf;
pub mod classify;
pub mod decode;
pub mod dhcp;
pub mod dns;
pub mod http;
pub mod postgres;
pub mod radius;
pub mod tls;

pub use self::classify::Classify;
pub use self::decode::Decoder;
