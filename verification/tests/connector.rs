use std::cell::RefCell;

use ssdp::{
    all_local_connectors, connector_for, is_candidate, map_local, open_all, plan_connectors,
    ConnectorConfig, IpVersionMode, LocalAddress,
};

fn v4(a: u8, b: u8, c: u8, d: u8) -> LocalAddress {
    LocalAddress::V4 { octets: [a, b, c, d], port: 0 }
}

fn v6(segments: [u16; 8]) -> LocalAddress {
    LocalAddress::V6 { segments, port: 0, flowinfo: 0, scope_id: 0 }
}

/// `127.0.0.1`, `192.168.1.5`, `::1`, `FE80::1`, `2001:db8::1`.
fn synthetic() -> Vec<LocalAddress> {
    vec![
        v4(127, 0, 0, 1),
        v4(192, 168, 1, 5),
        v6([0, 0, 0, 0, 0, 0, 0, 1]),
        v6([0xfe80, 0, 0, 0, 0, 0, 0, 1]),
        v6([0x2001, 0xdb8, 0, 0, 0, 0, 0, 1]),
    ]
}

fn bound(plan: &[ConnectorConfig]) -> Vec<LocalAddress> {
    plan.iter().map(|c| c.local).collect()
}

fn accept(config: ConnectorConfig) -> Result<ConnectorConfig, String> {
    Ok(config)
}

#[test]
fn any_keeps_ordinary_v4_and_link_local_v6() {
    let plan = plan_connectors(&synthetic(), Some(2), IpVersionMode::Any);
    assert_eq!(bound(&plan), vec![v4(192, 168, 1, 5), v6([0xfe80, 0, 0, 0, 0, 0, 0, 1])]);
    let opened = all_local_connectors(Ok(synthetic()), Some(2), IpVersionMode::Any, accept);
    assert_eq!(opened, Ok(plan));
}

#[test]
fn v4_only_keeps_ordinary_v4() {
    let plan = plan_connectors(&synthetic(), Some(2), IpVersionMode::V4Only);
    assert_eq!(bound(&plan), vec![v4(192, 168, 1, 5)]);
    let opened = all_local_connectors(Ok(synthetic()), Some(2), IpVersionMode::V4Only, accept);
    assert_eq!(opened, Ok(plan));
}

#[test]
fn v6_only_keeps_link_local_v6() {
    let plan = plan_connectors(&synthetic(), None, IpVersionMode::V6Only);
    assert_eq!(bound(&plan), vec![v6([0xfe80, 0, 0, 0, 0, 0, 0, 1])]);
}

#[test]
fn no_address_gives_no_endpoint_and_no_error() {
    assert_eq!(plan_connectors(&Vec::new(), Some(2), IpVersionMode::Any), Vec::new());
    let calls = RefCell::new(0u32);
    let opened = all_local_connectors(Ok(Vec::new()), Some(2), IpVersionMode::Any, |c| {
        *calls.borrow_mut() += 1;
        Ok::<ConnectorConfig, String>(c)
    });
    assert_eq!(opened, Ok(Vec::new()));
    assert_eq!(*calls.borrow(), 0);
}

#[test]
fn enumeration_failure_opens_nothing() {
    let calls = RefCell::new(0u32);
    let opened = all_local_connectors(
        Err(String::from("permission denied")),
        Some(2),
        IpVersionMode::Any,
        |c| {
            *calls.borrow_mut() += 1;
            Ok::<ConnectorConfig, String>(c)
        },
    );
    assert_eq!(opened, Err(String::from("permission denied")));
    assert_eq!(*calls.borrow(), 0);
}

#[test]
fn loopback_is_never_bound() {
    let addrs = vec![
        v4(127, 0, 0, 1),
        v4(127, 8, 9, 10),
        v6([0, 0, 0, 0, 0, 0, 0, 1]),
        LocalAddress::V4 { octets: [127, 0, 0, 1], port: 1900 },
    ];
    for mode in [IpVersionMode::V4Only, IpVersionMode::V6Only, IpVersionMode::Any] {
        assert_eq!(plan_connectors(&addrs, Some(2), mode), Vec::new());
    }
    assert_eq!(map_local(&addrs), Vec::new());
}

#[test]
fn global_v6_is_never_bound() {
    let addrs = vec![
        v6([0x2001, 0xdb8, 0, 0, 0, 0, 0, 1]),
        v6([0x2a00, 1, 2, 3, 4, 5, 6, 7]),
        v6([0xfec0, 0, 0, 0, 0, 0, 0, 1]),
    ];
    for mode in [IpVersionMode::V4Only, IpVersionMode::V6Only, IpVersionMode::Any] {
        assert_eq!(plan_connectors(&addrs, None, mode), Vec::new());
    }
}

#[test]
fn global_v4_is_bound() {
    let addrs = vec![v4(8, 8, 8, 8), v4(169, 254, 3, 4)];
    let plan = plan_connectors(&addrs, None, IpVersionMode::Any);
    assert_eq!(bound(&plan), addrs);
}

#[test]
fn candidates_pass_the_loopback_and_scope_filters() {
    assert!(!is_candidate(v4(127, 0, 0, 1)));
    assert!(is_candidate(v4(192, 168, 1, 5)));
    assert!(is_candidate(v4(169, 254, 1, 1)));
    assert!(!is_candidate(v6([0, 0, 0, 0, 0, 0, 0, 1])));
    assert!(is_candidate(v6([0xfe80, 0, 0, 0, 0, 0, 0, 1])));
    assert!(!is_candidate(v6([0x2001, 0xdb8, 0, 0, 0, 0, 0, 1])));
}

#[test]
fn map_local_keeps_both_versions_in_order() {
    assert_eq!(
        map_local(&synthetic()),
        vec![v4(192, 168, 1, 5), v6([0xfe80, 0, 0, 0, 0, 0, 0, 1])]
    );
}

#[test]
fn modes_admit_by_version() {
    let a = v4(192, 168, 1, 5);
    let b = v6([0xfe80, 0, 0, 0, 0, 0, 0, 1]);
    assert!(IpVersionMode::V4Only.admits(a));
    assert!(!IpVersionMode::V4Only.admits(b));
    assert!(!IpVersionMode::V6Only.admits(a));
    assert!(IpVersionMode::V6Only.admits(b));
    assert!(IpVersionMode::Any.admits(a));
    assert!(IpVersionMode::Any.admits(b));
}

#[test]
fn any_is_v4_only_and_v6_only_together() {
    let addrs = synthetic();
    let any = plan_connectors(&addrs, Some(2), IpVersionMode::Any);
    let only4 = plan_connectors(&addrs, Some(2), IpVersionMode::V4Only);
    let only6 = plan_connectors(&addrs, Some(2), IpVersionMode::V6Only);
    assert!(only4.iter().all(|c| matches!(c.local, LocalAddress::V4 { .. })));
    assert!(only6.iter().all(|c| matches!(c.local, LocalAddress::V6 { .. })));
    assert_eq!(any.len(), only4.len() + only6.len());
    for config in any.iter() {
        let in4 = only4.iter().filter(|c| *c == config).count();
        let in6 = only6.iter().filter(|c| *c == config).count();
        let both = any.iter().filter(|c| *c == config).count();
        assert_eq!(both, in4 + in6);
    }
    for config in only4.iter().chain(only6.iter()) {
        assert!(any.contains(config));
    }
}

#[test]
fn same_addresses_give_the_same_endpoints() {
    let first = plan_connectors(&synthetic(), Some(2), IpVersionMode::Any);
    let second = plan_connectors(&synthetic(), Some(2), IpVersionMode::Any);
    assert_eq!(first, second);
    let mut shuffled = synthetic();
    shuffled.reverse();
    shuffled.push(v4(192, 168, 1, 5));
    let third = plan_connectors(&shuffled, Some(2), IpVersionMode::Any);
    for config in first.iter() {
        assert!(third.contains(config));
    }
    for config in third.iter() {
        assert!(first.contains(config));
    }
}

#[test]
fn endpoints_bind_port_zero_with_the_given_ttl() {
    let addrs = vec![
        LocalAddress::V4 { octets: [192, 168, 1, 5], port: 1900 },
        LocalAddress::V6 {
            segments: [0xfe80, 0, 0, 0, 0, 0, 0, 1],
            port: 1900,
            flowinfo: 9,
            scope_id: 4,
        },
    ];
    let plan = plan_connectors(&addrs, Some(7), IpVersionMode::Any);
    assert_eq!(
        plan,
        vec![
            ConnectorConfig {
                local: LocalAddress::V4 { octets: [192, 168, 1, 5], port: 0 },
                multicast_ttl: Some(7),
            },
            ConnectorConfig {
                local: LocalAddress::V6 {
                    segments: [0xfe80, 0, 0, 0, 0, 0, 0, 1],
                    port: 0,
                    flowinfo: 9,
                    scope_id: 4,
                },
                multicast_ttl: Some(7),
            },
        ]
    );
    assert_eq!(plan[0], connector_for(addrs[0], Some(7)));
    let unset = plan_connectors(&addrs, None, IpVersionMode::V4Only);
    assert_eq!(unset.len(), 1);
    assert_eq!(unset[0].multicast_ttl, None);
}

#[test]
fn plan_is_no_longer_than_the_address_list() {
    let addrs = vec![v4(10, 0, 0, 1), v4(10, 0, 0, 2), v4(10, 0, 0, 1)];
    let plan = plan_connectors(&addrs, None, IpVersionMode::Any);
    assert_eq!(plan.len(), 3);
    assert!(plan_connectors(&synthetic(), None, IpVersionMode::Any).len() <= synthetic().len());
}

#[test]
fn endpoints_come_in_plan_order() {
    let plan = plan_connectors(
        &vec![v4(10, 0, 0, 1), v4(10, 0, 0, 2), v4(10, 0, 0, 3)],
        Some(2),
        IpVersionMode::Any,
    );
    let seen = RefCell::new(Vec::new());
    let opened = open_all(&plan, |c| {
        seen.borrow_mut().push(c);
        match c.local {
            LocalAddress::V4 { octets, .. } => Ok::<u8, String>(octets[3]),
            LocalAddress::V6 { .. } => Err(String::from("unexpected")),
        }
    });
    assert_eq!(opened, Ok(vec![1, 2, 3]));
    assert_eq!(*seen.borrow(), plan);
}

#[test]
fn first_failure_ends_the_call() {
    let addrs = vec![v4(10, 0, 0, 1), v4(10, 0, 0, 2), v4(10, 0, 0, 3), v4(10, 0, 0, 4)];
    let seen = RefCell::new(Vec::new());
    let opened = all_local_connectors(
        Ok::<Vec<LocalAddress>, String>(addrs),
        Some(2),
        IpVersionMode::Any,
        |c| {
            seen.borrow_mut().push(c.local);
            match c.local {
                LocalAddress::V4 { octets, .. } if octets[3] < 2 => Ok(octets[3]),
                LocalAddress::V4 { octets, .. } => Err(format!("cannot bind {}", octets[3])),
                LocalAddress::V6 { .. } => Err(String::from("unexpected")),
            }
        },
    );
    assert_eq!(opened, Err(String::from("cannot bind 2")));
    assert_eq!(*seen.borrow(), vec![v4(10, 0, 0, 1), v4(10, 0, 0, 2)]);
}

#[test]
fn filtered_addresses_are_never_opened() {
    let seen = RefCell::new(Vec::new());
    let opened = all_local_connectors(
        Ok::<Vec<LocalAddress>, String>(synthetic()),
        None,
        IpVersionMode::V6Only,
        |c| {
            seen.borrow_mut().push(c.local);
            Ok(())
        },
    );
    assert_eq!(opened, Ok(vec![()]));
    assert_eq!(*seen.borrow(), vec![v6([0xfe80, 0, 0, 0, 0, 0, 0, 1])]);
}
