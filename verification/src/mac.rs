//! Hardware-address byte reversal. The wire format stores the 6-byte MAC
//! byte-reversed, so the same reversal converts in both directions.

use vstd::prelude::*;

verus! {

/// The reversal of a 6-byte sequence.
pub open spec fn spec_reverse_mac(s: Seq<u8>) -> Seq<u8> {
    Seq::new(6, |i: int| s[5 - i])
}

/// Reverses a 6-byte hardware address, converting between host order and the
/// byte-reversed order that the wire format stores.
pub fn reverse_mac(mac_flipped: [u8; 6]) -> (mac: [u8; 6])
    ensures
        mac@ == spec_reverse_mac(mac_flipped@),
{
    let mac = [
        mac_flipped[5],
        mac_flipped[4],
        mac_flipped[3],
        mac_flipped[2],
        mac_flipped[1],
        mac_flipped[0],
    ];
    proof {
        assert(mac@ =~= spec_reverse_mac(mac_flipped@));
    }
    mac
}

/// Reversing a 6-byte address twice yields the address itself: the wire
/// reversal is its own inverse.
pub proof fn lemma_reverse_mac_involution(s: Seq<u8>)
    requires
        s.len() == 6,
    ensures
        spec_reverse_mac(spec_reverse_mac(s)) == s,
{
    assert(spec_reverse_mac(spec_reverse_mac(s)) =~= s);
}

} // verus!
