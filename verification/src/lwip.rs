//! The library's side of lwIP: its types and codes, and the decisions made
//! around its calls and callbacks.
use vstd::prelude::*;

pub mod bindings;
pub mod ipaddr;
pub mod packet_buffer;
pub mod put;
pub mod tcp;
pub mod udp;

use bindings::netif;

verus! {

/// Proof that the caller holds lwIP's core lock.
pub struct LwipCore;

/// The address in host order whose octets, first to last, are the bytes of
/// `raw` from lowest to highest: lwIP keeps addresses in network order, and
/// this little-endian target reads the first octet into the low byte.
pub open spec fn host_order(raw: u32) -> u32 {
    (raw % 0x100 * 0x100_0000 + raw / 0x100 % 0x100 * 0x1_0000 + raw / 0x1_0000 % 0x100 * 0x100
        + raw / 0x100_0000) as u32
}

/// Converts an address read from lwIP to host order.
pub fn to_host_order(raw: u32) -> (r: u32)
    ensures
        r == host_order(raw),
{
    let r = ((raw & 0xff) << 24) | (((raw >> 8) & 0xff) << 16) | (((raw >> 16) & 0xff) << 8) | (raw
        >> 24);
    assert(r == host_order(raw)) by (bit_vector)
        requires
            r == ((raw & 0xff) << 24) | (((raw >> 8) & 0xff) << 16) | (((raw >> 16) & 0xff) << 8) | (
            raw >> 24),
    ;
    r
}

/// The address of the default network interface, in host order; none
/// while lwIP has no default interface.
pub fn my_ipaddr(netif_default: Option<&netif>) -> (r: Option<u32>)
    ensures
        match netif_default {
            None => r is None,
            Some(n) => r == Some(host_order(n.ip_addr.addr)),
        },
{
    match netif_default {
        None => None,
        Some(n) => Some(to_host_order(n.ip_addr.addr)),
    }
}

} // verus!
