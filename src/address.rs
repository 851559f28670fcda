//! Host identities: a resolved address as a 128-bit number, IPv4 addresses in
//! their IPv4-mapped IPv6 form (`::ffff:a.b.c.d`).
use vstd::prelude::*;

verus! {

/// Smallest identity of an IPv4 address (`::ffff:0.0.0.0`).
pub const IPV4_BASE: u128 = 0xffff_0000_0000;

/// Number of IPv4 addresses.
pub const IPV4_SPAN: u128 = 0x1_0000_0000;

/// The identity stands for an IPv4 address.
pub open spec fn is_ipv4_spec(a: u128) -> bool {
    IPV4_BASE <= a < IPV4_BASE + IPV4_SPAN
}

/// The identity of the IPv4 address `o[0].o[1].o[2].o[3]`.
pub open spec fn ipv4_identity_spec(o: [u8; 4]) -> u128 {
    (IPV4_BASE + o[0] * 0x100_0000 + o[1] * 0x1_0000 + o[2] * 0x100 + o[3]) as u128
}

/// The identity of an IPv4 address given by its four octets.
pub fn ipv4_identity(o: [u8; 4]) -> (r: u128)
    ensures
        r == ipv4_identity_spec(o),
        is_ipv4_spec(r),
{
    IPV4_BASE + (o[0] as u128) * 0x100_0000 + (o[1] as u128) * 0x1_0000 + (o[2] as u128) * 0x100
        + (o[3] as u128)
}

/// Whether the identity stands for an IPv4 address.
pub fn is_ipv4(a: u128) -> (r: bool)
    ensures
        r == is_ipv4_spec(a),
{
    IPV4_BASE <= a && a < IPV4_BASE + IPV4_SPAN
}

/// The first IPv4 address among the answers of a name lookup, if any.
pub fn first_ipv4(candidates: &Vec<u128>) -> (r: Option<u128>)
    ensures
        match r {
            None => forall|i: int| 0 <= i < candidates@.len() ==> !is_ipv4_spec(#[trigger] candidates@[i]),
            Some(a) => exists|i: int|
                0 <= i < candidates@.len() && candidates@[i] == a && is_ipv4_spec(a) && forall|j: int|
                    0 <= j < i ==> !is_ipv4_spec(#[trigger] candidates@[j]),
        },
{
    let mut i: usize = 0;
    while i < candidates.len()
        invariant
            i <= candidates@.len(),
            forall|j: int| 0 <= j < i ==> !is_ipv4_spec(#[trigger] candidates@[j]),
        decreases candidates@.len() - i,
    {
        if is_ipv4(candidates[i]) {
            return Some(candidates[i]);
        }
        i += 1;
    }
    None
}

} // verus!
