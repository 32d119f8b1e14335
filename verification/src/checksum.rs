//! The two independent 16-bit integrity codes of the protocol: a seeded
//! additive checksum used by the command envelope, and a ones'-complement
//! Internet-style checksum over little-endian 16-bit words.

use vstd::prelude::*;
use vstd::arithmetic::div_mod::lemma_mod_adds;
use vstd::arithmetic::div_mod::lemma_mod_equivalence;
use vstd::arithmetic::div_mod::lemma_small_mod;

verus! {

/// Mathematical sum of all bytes of a sequence.
pub open spec fn sum_bytes(s: Seq<u8>) -> int
    decreases s.len(),
{
    if s.len() == 0 {
        0
    } else {
        sum_bytes(s.drop_last()) + s.last()
    }
}

pub proof fn lemma_sum_bytes_nonneg(s: Seq<u8>)
    ensures
        sum_bytes(s) >= 0,
    decreases s.len(),
{
    if s.len() > 0 {
        lemma_sum_bytes_nonneg(s.drop_last());
    }
}

/// The additive checksum: the byte sum seeded with 0xBEAF, truncated to the
/// low 16 bits.
pub open spec fn spec_checksum(s: Seq<u8>) -> u16 {
    ((0xBEAF + sum_bytes(s)) % 0x10000) as u16
}

/// Computes the additive checksum of a slice of bytes: every byte is summed
/// onto the seed 0xBEAF and the result is truncated to 16 bits.
///
/// The result is a pure function of the bytes alone, so repeated calls on
/// equal input return equal values.
pub fn checksum(data: &[u8]) -> (r: u16)
    ensures
        r == spec_checksum(data@),
        r == (0xBEAF + sum_bytes(data@)) % 0x10000,
{
    let mut sum: u32 = 0xBEAF;
    let mut i: usize = 0;
    while i < data.len()
        invariant
            i <= data@.len(),
            sum == (0xBEAF + sum_bytes(data@.take(i as int))) % 0x10000,
        decreases data@.len() - i,
    {
        proof {
            lemma_step_additive(data@, i as int, sum as int);
        }
        sum = (sum + data[i] as u32) % 0x10000;
        i = i + 1;
    }
    proof {
        assert(data@.take(data@.len() as int) =~= data@);
        lemma_sum_bytes_nonneg(data@);
    }
    sum as u16
}

/// One step of the masked accumulation: adding the next byte and reducing
/// modulo 2^16 agrees with reducing the full seeded sum.
pub proof fn lemma_step_additive(s: Seq<u8>, i: int, acc: int)
    requires
        0 <= i < s.len(),
        acc == (0xBEAF + sum_bytes(s.take(i))) % 0x10000,
    ensures
        (acc + s[i]) % 0x10000 == (0xBEAF + sum_bytes(s.take(i + 1))) % 0x10000,
{
    assert(s.take(i + 1).drop_last() =~= s.take(i));
    assert(sum_bytes(s.take(i + 1)) == sum_bytes(s.take(i)) + s[i]);
    lemma_sum_bytes_nonneg(s.take(i));
    lemma_mod_adds(0xBEAF + sum_bytes(s.take(i)), s[i] as int, 0x10000);
    assert((s[i] as int) % 0x10000 == s[i] as int);
}

/// Replacing the byte at one position changes the byte sum by exactly the
/// difference of the bytes.
pub proof fn lemma_sum_bytes_update(s: Seq<u8>, i: int, v: u8)
    requires
        0 <= i < s.len(),
    ensures
        sum_bytes(s.update(i, v)) == sum_bytes(s) - s[i] + v,
    decreases s.len(),
{
    if i == s.len() - 1 {
        assert(s.update(i, v).drop_last() =~= s.drop_last());
    } else {
        assert(s.update(i, v).drop_last() =~= s.drop_last().update(i, v));
        lemma_sum_bytes_update(s.drop_last(), i, v);
    }
}

/// Two buffers that agree everywhere but at one position, where their bytes
/// differ, have different additive checksums: a single corrupted byte (in
/// particular a single flipped bit) always changes the checksum.
pub proof fn lemma_checksum_detects_byte_change(s: Seq<u8>, i: int, v: u8)
    requires
        0 <= i < s.len(),
        v != s[i],
    ensures
        spec_checksum(s.update(i, v)) != spec_checksum(s),
{
    lemma_sum_bytes_update(s, i, v);
    let a = 0xBEAF + sum_bytes(s);
    let b = 0xBEAF + sum_bytes(s.update(i, v));
    let d = v - s[i];
    assert(b == a + d);
    assert(-0x10000 < d < 0x10000);
    assert(d != 0);
    if b % 0x10000 == a % 0x10000 {
        lemma_mod_equivalence(b, a, 0x10000);
        assert(d % 0x10000 == 0);
        if d > 0 {
            lemma_small_mod(d as nat, 0x10000);
            assert(false);
        } else {
            lemma_mod_equivalence(a, b, 0x10000);
            assert((-d) % 0x10000 == 0);
            lemma_small_mod((-d) as nat, 0x10000);
            assert(false);
        }
    }
}

/// Mathematical sum of a byte sequence read as consecutive little-endian
/// 16-bit words, an odd trailing byte standing as the low byte of a final
/// word.
pub open spec fn sum_words_le(s: Seq<u8>) -> int
    decreases s.len(),
{
    if s.len() >= 2 {
        s[0] + 0x100 * s[1] + sum_words_le(s.skip(2))
    } else if s.len() == 1 {
        s[0] as int
    } else {
        0
    }
}

pub proof fn lemma_sum_words_le_bounds(s: Seq<u8>)
    ensures
        0 <= sum_words_le(s) <= 0xFFFF * ((s.len() + 1) / 2),
    decreases s.len(),
{
    if s.len() >= 2 {
        lemma_sum_words_le_bounds(s.skip(2));
    }
}

/// The Internet-style checksum: the word sum seeded with 0xFFFF, its high
/// half folded once onto its low half, complemented and truncated to 16
/// bits.
pub open spec fn spec_generic_checksum(s: Seq<u8>) -> u16 {
    let acc = 0xFFFF + sum_words_le(s);
    let folded = acc / 0x10000 + acc % 0x10000;
    (0xFFFF - folded % 0x10000) as u16
}

/// Computes the ones'-complement Internet-style checksum of a byte buffer:
/// consecutive little-endian 16-bit words are summed onto the seed 0xFFFF in
/// a 32-bit accumulator (an odd trailing byte is zero-extended to a word),
/// the high 16 bits are folded onto the low 16 bits once, and the result is
/// complemented and truncated to 16 bits.
///
/// This is a distinct algorithm from [`checksum`] and the two are not
/// interchangeable. The buffer is bounded so that the 32-bit accumulator
/// cannot overflow.
pub fn compute_generic_checksum(buf: &[u8]) -> (r: u16)
    requires
        buf@.len() <= 0x20000,
    ensures
        r == spec_generic_checksum(buf@),
{
    let mut state: u32 = 0xFFFF;
    let mut i: usize = 0;
    proof {
        assert(buf@.skip(0) =~= buf@);
    }
    while i + 2 <= buf.len()
        invariant
            buf@.len() <= 0x20000,
            i % 2 == 0,
            i <= buf@.len(),
            state <= 0xFFFF + 0xFFFF * (i as int / 2),
            state == 0xFFFF + sum_words_le(buf@) - sum_words_le(buf@.skip(i as int)),
        decreases buf@.len() - i,
    {
        proof {
            assert(buf@.skip(i as int).skip(2) =~= buf@.skip(i as int + 2));
            assert(sum_words_le(buf@.skip(i as int)) == buf@[i as int] + 0x100 * buf@[i as int
                + 1] + sum_words_le(buf@.skip(i as int + 2)));
            lemma_sum_words_le_bounds(buf@.skip(i as int + 2));
        }
        let word: u32 = buf[i] as u32 + 0x100 * buf[i + 1] as u32;
        state = state + word;
        i = i + 2;
    }
    if i < buf.len() {
        proof {
            assert(buf@.skip(i as int).len() == 1);
            assert(sum_words_le(buf@.skip(i as int)) == buf@[i as int]);
        }
        state = state + buf[i] as u32;
        i = i + 1;
    }
    proof {
        assert(state == 0xFFFF + sum_words_le(buf@));
        lemma_sum_words_le_bounds(buf@);
        assert(forall|x: u32| (#[trigger] (x >> 16u32)) <= 0xFFFF && (#[trigger] (x
            & 0xFFFFu32)) <= 0xFFFF) by (bit_vector);
    }
    state = (state >> 16u32) + (state & 0xFFFF);
    proof {
        let s0 = (0xFFFF + sum_words_le(buf@)) as u32;
        assert((s0 >> 16u32) == s0 as int / 0x10000 && (s0 & 0xFFFF) == s0 as int % 0x10000)
            by (bit_vector);
    }
    let r = !state & 0xFFFF;
    proof {
        let f = state;
        assert((!f & 0xFFFFu32) == 0xFFFF - (f & 0xFFFFu32) && (f & 0xFFFFu32) == f as int
            % 0x10000) by (bit_vector);
    }
    r as u16
}

} // verus!
