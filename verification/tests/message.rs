use std::collections::HashSet;

use ssdp::{
    MessageType, UPNP_MULTICAST_IPV4_ADDR, UPNP_MULTICAST_IPV6_LINK_LOCAL_ADDR,
    UPNP_MULTICAST_PORT, UPNP_MULTICAST_TTL,
};

#[test]
fn multicast_constants() {
    assert_eq!(UPNP_MULTICAST_IPV4_ADDR, "239.255.255.250");
    assert_eq!(UPNP_MULTICAST_IPV6_LINK_LOCAL_ADDR, "FF02::C");
    assert_eq!(UPNP_MULTICAST_PORT, 1900);
    assert_eq!(UPNP_MULTICAST_TTL, 2);
}

#[test]
fn message_types_are_distinct() {
    assert_eq!(MessageType::Notify, MessageType::Notify);
    assert_ne!(MessageType::Notify, MessageType::Search);
    assert_ne!(MessageType::Search, MessageType::Response);
    assert_ne!(MessageType::Notify, MessageType::Response);
}

#[test]
fn message_types_hash_by_identity() {
    let mut seen = HashSet::new();
    assert!(seen.insert(MessageType::Notify));
    assert!(seen.insert(MessageType::Search));
    assert!(seen.insert(MessageType::Response));
    assert!(!seen.insert(MessageType::Search));
    assert_eq!(seen.len(), 3);
}

#[test]
fn message_type_copies() {
    let a = MessageType::Response;
    let b = a;
    assert_eq!(a, b);
    assert_eq!(format!("{:?}", a), "Response");
}
