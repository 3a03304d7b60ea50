//! The addresses of the host's network interfaces.

use vstd::prelude::*;
use crate::address::LocalAddress;

verus! {

/// What kind of address an interface entry carries.
#[derive(Copy, Clone, Hash, Eq, PartialEq, Debug, Structural)]
pub enum InterfaceKind {
    /// A raw packet-capture device.
    Packet,
    Ipv4,
    Ipv6,
}

/// One entry of the operating system's interface table.
#[derive(Copy, Clone, Hash, Eq, PartialEq, Debug)]
pub struct InterfaceRecord {
    /// The kind of interface this is.
    pub kind: InterfaceKind,
    /// The address of this interface, if it has one.
    pub addr: Option<LocalAddress>,
}

impl InterfaceRecord {
    /// Whether the entry contributes an address: it is no packet-capture
    /// device and has an address assigned.
    pub open spec fn has_local_addr(self) -> bool {
        self.kind != InterfaceKind::Packet && self.addr is Some
    }
}

/// The addresses of the entries that contribute one, in the table's order.
pub open spec fn local_addrs_of(table: Seq<InterfaceRecord>) -> Seq<LocalAddress> {
    table.filter(|r: InterfaceRecord| r.has_local_addr()).map_values(
        |r: InterfaceRecord| r.addr->Some_0,
    )
}

/// Extracts the local addresses from an interface table: every assigned
/// address of an interface that is no packet-capture device, in the table's
/// order. An empty table gives an empty list.
pub fn interface_addrs(table: &Vec<InterfaceRecord>) -> (addrs: Vec<LocalAddress>)
    ensures
        addrs@ == local_addrs_of(table@),
{
    let mut addrs: Vec<LocalAddress> = Vec::new();
    let mut i: usize = 0;
    proof {
        reveal(Seq::filter);
        assert(table@.take(0) =~= Seq::empty());
    }
    while i < table.len()
        invariant
            i <= table.len(),
            addrs@ == local_addrs_of(table@.take(i as int)),
        decreases table.len() - i,
    {
        let record = table[i];
        proof {
            lemma_interface_addrs_push(table@.take(i as int), record);
            assert(table@.take(i + 1) =~= table@.take(i as int).push(record));
        }
        match record.kind {
            InterfaceKind::Packet => {},
            _ => {
                if let Some(addr) = record.addr {
                    addrs.push(addr);
                }
            },
        }
        i += 1;
    }
    proof {
        assert(table@.take(table.len() as int) =~= table@);
    }
    addrs
}

/// The local addresses that an enumeration of the interfaces gave: those of
/// its table, or the error that the enumeration failed with. A table from
/// which no address comes is no failure.
pub fn get_local_addrs<E>(enumerated: Result<Vec<InterfaceRecord>, E>) -> (addrs: Result<Vec<LocalAddress>, E>)
    ensures
        enumerated matches Err(e) ==> addrs == Err::<Vec<LocalAddress>, E>(e),
        enumerated matches Ok(table) ==> addrs matches Ok(found) && found@ == local_addrs_of(table@),
{
    match enumerated {
        Ok(table) => Ok(interface_addrs(&table)),
        Err(e) => Err(e),
    }
}

/// One more entry adds its address, if it contributes one, at the end.
proof fn lemma_interface_addrs_push(table: Seq<InterfaceRecord>, record: InterfaceRecord)
    ensures
        local_addrs_of(table.push(record)) == if record.has_local_addr() {
            local_addrs_of(table).push(record.addr->Some_0)
        } else {
            local_addrs_of(table)
        },
{
    reveal(Seq::filter);
    assert(table.push(record).drop_last() =~= table);
    let kept = table.filter(|r: InterfaceRecord| r.has_local_addr());
    if record.has_local_addr() {
        assert(kept.push(record).map_values(|r: InterfaceRecord| r.addr->Some_0)
            =~= kept.map_values(|r: InterfaceRecord| r.addr->Some_0).push(record.addr->Some_0));
    }
}

} // verus!
