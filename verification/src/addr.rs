//! Local address resolution: given an optional explicit IPv4 address, use
//! it; otherwise pick the first non-loopback IPv4 address among the local
//! interface addresses. Addresses are carried as their four octets, and the
//! interface enumeration is the machine's answer, handed through a trusted
//! wrapper.

use vstd::prelude::*;

use crate::error::Error;

verus! {

/// One local interface address: an IPv4 address as its four octets, or an
/// IPv6 address, which this protocol never binds.
pub enum InterfaceAddr {
    /// An IPv4 interface address.
    V4([u8; 4]),
    /// An IPv6 interface address.
    V6,
}

/// Whether an interface address is an IPv4 address outside the loopback
/// block (first octet 127).
pub open spec fn is_usable_v4(a: InterfaceAddr) -> bool {
    match a {
        InterfaceAddr::V4(octets) => octets@[0] != 127,
        InterfaceAddr::V6 => false,
    }
}

/// The first usable IPv4 address of a list of interface addresses, if any.
pub open spec fn first_usable_v4(s: Seq<InterfaceAddr>) -> Option<[u8; 4]>
    decreases s.len(),
{
    if s.len() == 0 {
        None
    } else if is_usable_v4(s[0]) {
        match s[0] {
            InterfaceAddr::V4(octets) => Some(octets),
            InterfaceAddr::V6 => None,
        }
    } else {
        first_usable_v4(s.skip(1))
    }
}

/// Relies on `get_if_addrs::get_if_addrs`: enumerates the machine's
/// interface addresses, `None` when enumeration fails. The answer depends
/// on the machine, so nothing more is promised of it.
#[verifier::external_body]
fn enumerate_interfaces() -> (r: Option<Vec<InterfaceAddr>>)
{
    let interfaces = match get_if_addrs::get_if_addrs() {
        Ok(i) => i,
        Err(_) => {
            return None;
        },
    };
    let mut out: Vec<InterfaceAddr> = Vec::new();
    for interface in interfaces {
        match interface.addr {
            get_if_addrs::IfAddr::V4(a) => out.push(InterfaceAddr::V4(a.ip.octets())),
            get_if_addrs::IfAddr::V6(_) => out.push(InterfaceAddr::V6),
        }
    }
    Some(out)
}

/// Selects the first non-loopback IPv4 address of a list of interface
/// addresses, or fails with [`Error::NoLocalAddressError`] when none
/// qualifies.
pub fn select_local_ip(interfaces: &Vec<InterfaceAddr>) -> (r: Result<[u8; 4], Error>)
    ensures
        r == (match first_usable_v4(interfaces@) {
            Some(octets) => Ok::<[u8; 4], Error>(octets),
            None => Err::<[u8; 4], Error>(Error::NoLocalAddressError),
        }),
{
    let mut i: usize = 0;
    proof {
        assert(interfaces@.skip(0) =~= interfaces@);
    }
    while i < interfaces.len()
        invariant
            i <= interfaces@.len(),
            first_usable_v4(interfaces@) == first_usable_v4(interfaces@.skip(i as int)),
        decreases interfaces@.len() - i,
    {
        match interfaces[i] {
            InterfaceAddr::V4(octets) => {
                if octets[0] != 127 {
                    proof {
                        assert(interfaces@.skip(i as int)[0] == interfaces@[i as int]);
                    }
                    return Ok(octets);
                }
            },
            InterfaceAddr::V6 => {},
        }
        proof {
            assert(interfaces@.skip(i as int)[0] == interfaces@[i as int]);
            assert(interfaces@.skip(i as int).skip(1) =~= interfaces@.skip(i as int + 1));
        }
        i = i + 1;
    }
    proof {
        assert(interfaces@.skip(i as int).len() == 0);
    }
    Err(Error::NoLocalAddressError)
}

/// Returns the explicit local IPv4 address unchanged when one is given;
/// otherwise enumerates the machine's interfaces and selects the first
/// non-loopback IPv4 address, failing with [`Error::NoLocalAddressError`]
/// when enumeration fails or none qualifies.
pub fn local_ip_or(ip: Option<[u8; 4]>) -> (r: Result<[u8; 4], Error>)
    ensures
        ip is Some ==> r == Ok::<[u8; 4], Error>(ip.unwrap()),
        r is Err ==> r == Err::<[u8; 4], Error>(Error::NoLocalAddressError),
        ip is None && r is Ok ==> r.unwrap()@[0] != 127,
{
    match ip {
        Some(explicit) => Ok(explicit),
        None => {
            let interfaces = match enumerate_interfaces() {
                Some(list) => list,
                None => {
                    return Err(Error::NoLocalAddressError);
                },
            };
            let r = select_local_ip(&interfaces);
            proof {
                lemma_first_usable_v4_is_usable(interfaces@);
            }
            r
        },
    }
}

/// What the selection returns is itself a usable address: an IPv4 address
/// outside the loopback block.
proof fn lemma_first_usable_v4_is_usable(s: Seq<InterfaceAddr>)
    ensures
        match first_usable_v4(s) {
            Some(octets) => octets@[0] != 127,
            None => true,
        },
    decreases s.len(),
{
    if s.len() > 0 && !is_usable_v4(s[0]) {
        lemma_first_usable_v4_is_usable(s.skip(1));
    }
}

} // verus!
