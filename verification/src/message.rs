//! Messaging primitives for discovering devices and services.

use vstd::prelude::*;

verus! {

/// IPv4 multicast group that discovery messages are sent to.
pub const UPNP_MULTICAST_IPV4_ADDR: &'static str = "239.255.255.250";

/// IPv6 link-local multicast group that discovery messages are sent to.
pub const UPNP_MULTICAST_IPV6_LINK_LOCAL_ADDR: &'static str = "FF02::C";

/// Well-known port of the discovery protocol.
pub const UPNP_MULTICAST_PORT: u16 = 1900;

/// Default hop limit of multicast messages: low, so that discovery traffic
/// stays on the local network.
pub const UPNP_MULTICAST_TTL: u32 = 2;

/// Enumerates different types of SSDP messages.
#[derive(Copy, Clone, Hash, Eq, PartialEq, Debug, Structural)]
pub enum MessageType {
    /// A notify message.
    Notify,
    /// A search message.
    Search,
    /// A response to a search message.
    Response,
}

} // verus!
