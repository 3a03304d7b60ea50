//! Transport discovery for SSDP: classification of local network addresses and
//! the choice of the multicast endpoints to open on them.

pub mod address;
pub mod connector;
pub mod facts;
pub mod interface;
pub mod message;

pub use address::{IpAddress, LocalAddress, Scope};
pub use connector::{
    all_local_connectors, connector_for, is_candidate, map_local, open_all, plan_connectors,
    ConnectorConfig, IpVersionMode,
};
pub use interface::{get_local_addrs, interface_addrs, InterfaceKind, InterfaceRecord};
pub use message::{
    MessageType, UPNP_MULTICAST_IPV4_ADDR, UPNP_MULTICAST_IPV6_LINK_LOCAL_ADDR,
    UPNP_MULTICAST_PORT, UPNP_MULTICAST_TTL,
};
