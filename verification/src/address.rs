//! Local socket addresses and their scope.

use vstd::prelude::*;

verus! {

/// How far an address reaches.
#[derive(Copy, Clone, Hash, Eq, PartialEq, Debug, Structural)]
pub enum Scope {
    /// The host itself.
    Loopback,
    /// The local network segment only.
    LinkLocal,
    /// Everything else: routable beyond the segment.
    Global,
}

/// An IP address, as its four octets or its eight 16-bit segments, most
/// significant first.
#[derive(Copy, Clone, Hash, Eq, PartialEq, Debug)]
pub enum IpAddress {
    V4([u8; 4]),
    V6([u16; 8]),
}

impl IpAddress {
    /// The scope of an address: `127.0.0.0/8` and `::1` are loopback,
    /// `169.254.0.0/16` and `fe80::/10` are link-local, all others global.
    pub open spec fn spec_scope(self) -> Scope {
        match self {
            IpAddress::V4(o) => {
                if o[0] == 127 {
                    Scope::Loopback
                } else if o[0] == 169 && o[1] == 254 {
                    Scope::LinkLocal
                } else {
                    Scope::Global
                }
            },
            IpAddress::V6(s) => {
                if s[0] == 0 && s[1] == 0 && s[2] == 0 && s[3] == 0 && s[4] == 0 && s[5] == 0
                    && s[6] == 0 && s[7] == 1 {
                    Scope::Loopback
                } else if 0xfe80 <= s[0] <= 0xfebf {
                    Scope::LinkLocal
                } else {
                    Scope::Global
                }
            },
        }
    }

    /// Classifies the address.
    #[verifier::when_used_as_spec(spec_scope)]
    pub fn scope(self) -> (scope: Scope)
        ensures
            scope == self.spec_scope(),
    {
        match self {
            IpAddress::V4(o) => {
                if o[0] == 127 {
                    Scope::Loopback
                } else if o[0] == 169 && o[1] == 254 {
                    Scope::LinkLocal
                } else {
                    Scope::Global
                }
            },
            IpAddress::V6(s) => {
                if s[0] == 0 && s[1] == 0 && s[2] == 0 && s[3] == 0 && s[4] == 0 && s[5] == 0
                    && s[6] == 0 && s[7] == 1 {
                    Scope::Loopback
                } else if 0xfe80 <= s[0] && s[0] <= 0xfebf {
                    Scope::LinkLocal
                } else {
                    Scope::Global
                }
            },
        }
    }
}

/// A socket address found on a local network interface.
#[derive(Copy, Clone, Hash, Eq, PartialEq, Debug)]
pub enum LocalAddress {
    V4 { octets: [u8; 4], port: u16 },
    V6 { segments: [u16; 8], port: u16, flowinfo: u32, scope_id: u32 },
}

impl LocalAddress {
    pub open spec fn spec_ip(self) -> IpAddress {
        match self {
            LocalAddress::V4 { octets, .. } => IpAddress::V4(octets),
            LocalAddress::V6 { segments, .. } => IpAddress::V6(segments),
        }
    }

    /// The IP address, without the port.
    #[verifier::when_used_as_spec(spec_ip)]
    pub fn ip(self) -> (ip: IpAddress)
        ensures
            ip == self.spec_ip(),
    {
        match self {
            LocalAddress::V4 { octets, .. } => IpAddress::V4(octets),
            LocalAddress::V6 { segments, .. } => IpAddress::V6(segments),
        }
    }

    pub open spec fn spec_port(self) -> u16 {
        match self {
            LocalAddress::V4 { port, .. } => port,
            LocalAddress::V6 { port, .. } => port,
        }
    }

    /// The port.
    #[verifier::when_used_as_spec(spec_port)]
    pub fn port(self) -> (port: u16)
        ensures
            port == self.spec_port(),
    {
        match self {
            LocalAddress::V4 { port, .. } => port,
            LocalAddress::V6 { port, .. } => port,
        }
    }

    pub open spec fn spec_scope(self) -> Scope {
        self.spec_ip().spec_scope()
    }

    /// The scope of the IP address.
    #[verifier::when_used_as_spec(spec_scope)]
    pub fn scope(self) -> (scope: Scope)
        ensures
            scope == self.spec_scope(),
    {
        self.ip().scope()
    }

    pub open spec fn spec_with_port(self, port: u16) -> LocalAddress {
        match self {
            LocalAddress::V4 { octets, .. } => LocalAddress::V4 { octets, port },
            LocalAddress::V6 { segments, flowinfo, scope_id, .. } => LocalAddress::V6 {
                segments,
                port,
                flowinfo,
                scope_id,
            },
        }
    }

    /// The same address on another port. An IPv6 address keeps its flow
    /// information and its scope identifier.
    #[verifier::when_used_as_spec(spec_with_port)]
    pub fn with_port(self, port: u16) -> (moved: LocalAddress)
        ensures
            moved == self.spec_with_port(port),
    {
        match self {
            LocalAddress::V4 { octets, .. } => LocalAddress::V4 { octets, port },
            LocalAddress::V6 { segments, flowinfo, scope_id, .. } => LocalAddress::V6 {
                segments,
                port,
                flowinfo,
                scope_id,
            },
        }
    }
}

} // verus!
