//! Plain address types used throughout the stack: Ethernet MAC addresses,
//! IPv4 addresses, and IPv4 socket addresses.

use vstd::prelude::*;

verus! {

/// A 48-bit Ethernet MAC address.
#[derive(Clone, Copy, Hash, Debug)]
pub struct MacAddress {
    pub octets: [u8; 6],
}

impl PartialEq for MacAddress {
    fn eq(&self, other: &MacAddress) -> (r: bool) {
        let mut i: usize = 0;
        let mut same: bool = true;
        while i < 6
            invariant
                i <= 6,
                same == (forall|k: int| 0 <= k < i ==> self.octets@[k] == other.octets@[k]),
            decreases 6 - i,
        {
            if self.octets[i] != other.octets[i] {
                same = false;
            }
            i = i + 1;
        }
        proof {
            if same {
                assert(self.octets@ =~= other.octets@);
            }
        }
        same
    }
}

impl Eq for MacAddress {

}

impl vstd::std_specs::cmp::PartialEqSpecImpl for MacAddress {
    open spec fn obeys_eq_spec() -> bool {
        true
    }

    open spec fn eq_spec(&self, other: &MacAddress) -> bool {
        self.octets@ == other.octets@
    }
}

impl MacAddress {
    /// The address bytes in wire order.
    pub open spec fn bytes(self) -> Seq<u8> {
        self.octets@
    }

    /// Builds an address from its six bytes in wire order.
    pub fn new(octets: [u8; 6]) -> (r: Self)
        ensures
            r.octets == octets,
    {
        MacAddress { octets }
    }

    /// Whether this is the link-layer broadcast address.
    pub fn is_broadcast(&self) -> (r: bool)
        ensures
            r == (self.bytes() == seq![0xffu8, 0xffu8, 0xffu8, 0xffu8, 0xffu8, 0xffu8]),
    {
        let r = self.octets[0] == 0xff && self.octets[1] == 0xff && self.octets[2] == 0xff
            && self.octets[3] == 0xff && self.octets[4] == 0xff && self.octets[5] == 0xff;
        proof {
            if r {
                assert(self.bytes() =~= seq![0xffu8, 0xffu8, 0xffu8, 0xffu8, 0xffu8, 0xffu8]);
            }
            if self.bytes() == seq![0xffu8, 0xffu8, 0xffu8, 0xffu8, 0xffu8, 0xffu8] {
                assert(self.octets@[0] == 0xffu8 && self.octets@[1] == 0xffu8 && self.octets@[2]
                    == 0xffu8 && self.octets@[3] == 0xffu8 && self.octets@[4] == 0xffu8
                    && self.octets@[5] == 0xffu8);
            }
        }
        r
    }

    /// Whether this is a link-layer multicast address (lowest bit of the
    /// first byte set).
    pub fn is_multicast(&self) -> (r: bool)
        ensures
            r == (self.bytes()[0] & 0x01u8 == 0x01u8),
    {
        self.octets[0] & 0x01 == 0x01
    }
}

/// An IPv4 address.
#[derive(Clone, Copy, Hash, Debug)]
pub struct Ipv4Address {
    pub octets: [u8; 4],
}

impl PartialEq for Ipv4Address {
    fn eq(&self, other: &Ipv4Address) -> (r: bool) {
        let r = self.octets[0] == other.octets[0] && self.octets[1] == other.octets[1]
            && self.octets[2] == other.octets[2] && self.octets[3] == other.octets[3];
        proof {
            if r {
                assert(self.octets@ =~= other.octets@);
            }
        }
        r
    }
}

impl Eq for Ipv4Address {

}

impl vstd::std_specs::cmp::PartialEqSpecImpl for Ipv4Address {
    open spec fn obeys_eq_spec() -> bool {
        true
    }

    open spec fn eq_spec(&self, other: &Ipv4Address) -> bool {
        self.octets@ == other.octets@
    }
}

impl Ipv4Address {
    /// The address bytes in wire order.
    pub open spec fn bytes(self) -> Seq<u8> {
        self.octets@
    }

    /// Builds an address from its four bytes in wire order.
    pub fn new(a: u8, b: u8, c: u8, d: u8) -> (r: Self)
        ensures
            r.octets@ == seq![a, b, c, d],
    {
        let r = Ipv4Address { octets: [a, b, c, d] };
        proof {
            assert(r.octets@ =~= seq![a, b, c, d]);
        }
        r
    }
}

/// An IPv4 socket address: an address and a port.
#[derive(Clone, Copy, Hash, Debug)]
pub struct SocketAddress {
    pub ip: Ipv4Address,
    pub port: u16,
}

impl PartialEq for SocketAddress {
    fn eq(&self, other: &SocketAddress) -> (r: bool) {
        self.ip == other.ip && self.port == other.port
    }
}

impl Eq for SocketAddress {

}

impl vstd::std_specs::cmp::PartialEqSpecImpl for SocketAddress {
    open spec fn obeys_eq_spec() -> bool {
        true
    }

    open spec fn eq_spec(&self, other: &SocketAddress) -> bool {
        self.ip.octets@ == other.ip.octets@ && self.port == other.port
    }
}

impl SocketAddress {
    /// Builds a socket address.
    pub fn new(ip: Ipv4Address, port: u16) -> (r: Self)
        ensures
            r.ip == ip,
            r.port == port,
    {
        SocketAddress { ip, port }
    }
}

} // verus!
