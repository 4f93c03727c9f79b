//! Codec for the attribute payloads of the nl80211 wireless-configuration
//! protocol: the mapping between raw type-length-value records and typed,
//! exhaustively matched attribute values, including nested composites.

pub mod attr;
pub mod channel;
pub mod cipher;
pub mod error;
pub mod iface;
pub mod message;
pub mod mlo;
pub mod phy;
pub mod stats;
pub mod text;
pub mod wire;

pub use attr::Nl80211Attr;
pub use channel::{Nl80211ChannelWidth, Nl80211WiPhyChannelType};
pub use cipher::Nl80211CipherSuite;
pub use error::DecodeError;
pub use iface::Nl80211InterfaceType;
pub use message::Nl80211Message;
pub use mlo::{Nl80211MloLink, Nl80211MloLinkNla};
pub use phy::{Nl80211PhyGetRequest, Nl80211PhyHandle};
pub use stats::Nl80211TransmitQueueStat;
pub use wire::RawNla;
