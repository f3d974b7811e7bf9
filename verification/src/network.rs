//! Display rules of the network-listing command.
//!
//! The tool lists the machine's interfaces so players can read addresses to
//! each other. The decisions live here: which addresses are worth showing,
//! and how wide a subnet mask is (its `/NN` notation counts the leading
//! one-bits of the mask's octets). The enumeration of interfaces and the
//! textual formatting of addresses stay with the caller.

use vstd::prelude::*;

verus! {

/// The leading one-bits of `octet`, examined from the mask `bit` downward.
pub open spec fn leading_ones_from(octet: u8, bit: u8) -> nat
    decreases bit,
{
    if bit == 0 {
        0
    } else if octet & bit == 0 {
        0
    } else {
        1 + leading_ones_from(octet, bit / 2)
    }
}

/// The leading one-bits of one octet.
pub open spec fn octet_leading_ones(octet: u8) -> nat {
    leading_ones_from(octet, 0x80)
}

/// The leading one-bits of a big-endian octet string: a full octet passes
/// the count on to the next, any other octet ends it.
pub open spec fn slice_leading_ones(octets: Seq<u8>) -> nat
    decreases octets.len(),
{
    if octets.len() == 0 {
        0
    } else if octet_leading_ones(octets[0]) == 8 {
        8 + slice_leading_ones(octets.drop_first())
    } else {
        octet_leading_ones(octets[0])
    }
}

/// The bit positions a mask can still visit before it reaches zero.
spec fn mask_width(bit: u8) -> nat
    decreases bit,
{
    if bit == 0 {
        0
    } else {
        1 + mask_width(bit / 2)
    }
}

/// Count the leading one-bits of the octets: the `/NN` width of a subnet
/// mask given big-endian.
#[verifier::loop_isolation(false)]
pub fn count_octets(octets: &[u8]) -> (r: u8)
    requires
        octets@.len() <= 31,
    ensures
        r == slice_leading_ones(octets@),
{
    let mut count: u8 = 0;
    let mut idx: usize = 0;
    proof {
        assert(octets@.skip(0) =~= octets@);
    }
    while idx < octets.len()
        invariant
            0 <= idx <= octets@.len(),
            count == 8 * idx,
            slice_leading_ones(octets@) == 8 * idx + slice_leading_ones(octets@.skip(idx as int)),
        decreases octets@.len() - idx,
    {
        let octet = octets[idx];
        let mut bit: u8 = 0x80;
        let mut ones: u8 = 0;
        proof {
            assert(mask_width(0) == 0);
            assert(mask_width(1) == 1);
            assert(mask_width(2) == 2);
            assert(mask_width(4) == 3);
            assert(mask_width(8) == 4);
            assert(mask_width(0x10) == 5);
            assert(mask_width(0x20) == 6);
            assert(mask_width(0x40) == 7);
            assert(mask_width(0x80) == 8);
        }
        while bit > 0 && (octet & bit) != 0
            invariant
                ones + mask_width(bit) == 8,
                octet_leading_ones(octet) == ones + leading_ones_from(octet, bit),
            decreases bit,
        {
            proof {
                assert(bit >> 1 == bit / 2) by (bit_vector);
            }
            ones = ones + 1;
            bit = bit >> 1;
        }
        proof {
            assert(leading_ones_from(octet, bit) == 0);
            assert(octets@.skip(idx as int)[0] == octets@[idx as int]);
            assert(octets@.skip(idx as int).drop_first() =~= octets@.skip(idx + 1));
        }
        count = count + ones;
        if bit != 0 {
            // a zero bit ended the count inside this octet
            proof {
                assert(mask_width(bit) >= 1);
                assert(octet_leading_ones(octet) < 8);
            }
            return count;
        }
        proof {
            assert(mask_width(bit) == 0);
            assert(octet_leading_ones(octet) == 8);
        }
        idx += 1;
    }
    proof {
        assert(octets@.skip(octets@.len() as int) =~= Seq::<u8>::empty());
    }
    count
}

/// A network address as the tool models it: the raw octets of a V4 or V6
/// address, or one of the two non-address markers an enumeration can
/// report.
pub enum IpAddr {
    Empty,
    Unsupported,
    V4([u8; 4]),
    V6([u8; 16]),
}

/// Whether an address is worth showing: loopback and link-local addresses
/// are hidden, and so are the non-address markers.
pub open spec fn ip_displayed_spec(ip: IpAddr) -> bool {
    match ip {
        IpAddr::Empty => false,
        IpAddr::Unsupported => false,
        IpAddr::V4(o) => !(o[0] == 127) && !(o[0] == 169 && o[1] == 254),
        IpAddr::V6(o) => !(o[0] == 0xfe && o[1] == 0x80 && o[2] == 0 && o[3] == 0 && o[4] == 0
            && o[5] == 0 && o[6] == 0 && o[7] == 0),
    }
}

/// Decide whether one address appears in the listing. A V4 address is
/// hidden when it is loopback (`127.0.0.0/8`) or link-local
/// (`169.254.0.0/16`); a V6 address when it is strictly unicast link-local
/// (`fe80::/64` with the next 48 bits zero).
pub fn ip_addr_should_be_displayed(ip: &IpAddr) -> (r: bool)
    ensures
        r == ip_displayed_spec(*ip),
{
    match ip {
        IpAddr::Empty => false,
        IpAddr::Unsupported => false,
        IpAddr::V4(o) => {
            if o[0] == 127 {
                false
            } else if o[0] == 169 && o[1] == 254 {
                false
            } else {
                true
            }
        },
        IpAddr::V6(o) => {
            if o[0] == 0xfe && o[1] == 0x80 && o[2] == 0 && o[3] == 0 && o[4] == 0 && o[5] == 0
                && o[6] == 0 && o[7] == 0 {
                false
            } else {
                true
            }
        },
    }
}

/// One address/netmask pair of an interface.
pub struct NetworkAddrs {
    pub addr: IpAddr,
    pub netmask: IpAddr,
}

/// One interface: its name and its address pairs.
pub struct Network {
    pub name: String,
    pub addrs: Vec<NetworkAddrs>,
}

/// An interface is listed when any of its addresses is.
pub open spec fn network_displayed_spec(network: Network) -> bool {
    exists|i: int| 0 <= i < network.addrs@.len() && ip_displayed_spec(network.addrs@[i].addr)
}

/// Decide whether one interface appears in the listing.
#[verifier::loop_isolation(false)]
pub fn network_should_be_displayed(network: &Network) -> (r: bool)
    ensures
        r == network_displayed_spec(*network),
{
    let mut i: usize = 0;
    while i < network.addrs.len()
        invariant
            0 <= i <= network.addrs@.len(),
            forall|j: int| 0 <= j < i ==> !ip_displayed_spec(network.addrs@[j].addr),
        decreases network.addrs@.len() - i,
    {
        if ip_addr_should_be_displayed(&network.addrs[i].addr) {
            return true;
        }
        i += 1;
    }
    false
}

} // verus!
