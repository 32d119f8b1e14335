//! The command envelope codec: a fixed 0x38-byte little-endian header
//! followed by an AES-128-CBC encrypted payload, guarded by two additive
//! checksums — one over the whole buffer (with the checksum field zeroed),
//! one over the plaintext payload before encryption.
//!
//! Byte offsets are part of the wire-compatibility contract, so the header
//! serializer and parser are specified byte by byte.

use vstd::prelude::*;

use aes::Aes128;
use block_modes::BlockMode;
use block_modes::Cbc;
use block_modes::block_padding::ZeroPadding;
use rand::Rng;

use vstd::arithmetic::div_mod::lemma_fundamental_div_mod;
use vstd::slice::slice_subrange;

use crate::checksum::checksum;
use crate::checksum::lemma_checksum_detects_byte_change;
use crate::checksum::lemma_step_additive;
use crate::checksum::spec_checksum;
use crate::checksum::sum_bytes;
use crate::error::Error;
use crate::mac::reverse_mac;
use crate::mac::spec_reverse_mac;

verus! {

/// Size of the fixed envelope header in bytes.
pub const HEADER_SIZE: usize = 0x38;

/// The fixed, protocol-constant initialization vector shared by every device
/// of this family. It is never derived from message content; reusing it with
/// the same key across messages is intentional wire behaviour.
pub const INITIAL_VECTOR: [u8; 16] = [
    0x56,
    0x2E,
    0x17,
    0x99,
    0x6D,
    0x09,
    0x3D,
    0x28,
    0xDD,
    0xB3,
    0xBA,
    0x69,
    0x5A,
    0x2E,
    0x6F,
    0x58,
];

/// The constant 8-byte sentinel identifying the protocol family.
pub open spec fn spec_magic() -> Seq<u8> {
    seq![0x5Au8, 0xA5u8, 0xAAu8, 0x55u8, 0x5Au8, 0xA5u8, 0xAAu8, 0x55u8]
}

/// A message used to send commands to a device on the network: the fields of
/// the fixed 0x38-byte wire header.
#[derive(Clone, Copy, Debug)]
pub struct CommandMessage {
    /// Magic header, the constant protocol sentinel.
    pub magic_header: [u8; 8],
    /// The numeric model identifier of the device receiving this message.
    pub device_type: u16,
    /// The operation code of the packet being sent.
    pub packet_type: u16,
    /// The message sequence number; the top bit is forced set to mark a
    /// command as opposed to a device-originated message.
    pub count: u16,
    /// The hardware address, stored byte-reversed as the wire format asks.
    pub mac_reversed: [u8; 6],
    /// The device session identifier; zero until authenticated.
    pub id: u32,
    /// The additive checksum of the entire envelope plus payload, computed
    /// with this field zeroed.
    pub checksum: u16,
    /// The additive checksum of the plaintext payload before encryption.
    pub payload_checksum: u16,
}

// ---------------------------------------------------------------------------
// Little-endian field encodings and the header layout, byte by byte.
// ---------------------------------------------------------------------------

/// The two little-endian bytes of a 16-bit field.
pub open spec fn spec_u16_le(x: u16) -> Seq<u8> {
    seq![(x % 0x100) as u8, (x / 0x100) as u8]
}

/// The four little-endian bytes of a 32-bit field.
pub open spec fn spec_u32_le(x: u32) -> Seq<u8> {
    seq![
        (x % 0x100) as u8,
        ((x / 0x100) % 0x100) as u8,
        ((x / 0x10000) % 0x100) as u8,
        ((x / 0x1000000) % 0x100) as u8,
    ]
}

/// A run of zero bytes.
pub open spec fn zero_bytes(n: nat) -> Seq<u8> {
    Seq::new(n, |i: int| 0u8)
}

/// The 16-bit little-endian field stored at offset `i` of a buffer.
pub open spec fn spec_u16_at(b: Seq<u8>, i: int) -> u16
    recommends
        0 <= i,
        i + 2 <= b.len(),
{
    (b[i] + 0x100 * b[i + 1]) as u16
}

/// The 32-bit little-endian field stored at offset `i` of a buffer.
pub open spec fn spec_u32_at(b: Seq<u8>, i: int) -> u32
    recommends
        0 <= i,
        i + 4 <= b.len(),
{
    (b[i] + 0x100 * b[i + 1] + 0x10000 * b[i + 2] + 0x1000000 * b[i + 3]) as u32
}

/// The 0x38 header bytes of a message: the magic sentinel at 0x00, the
/// envelope checksum at 0x20, device type at 0x24, packet type at 0x26,
/// count at 0x28, the reversed hardware address at 0x2A, the session id at
/// 0x30 and the payload checksum at 0x34; every other byte is zero.
pub open spec fn spec_serialize_header(h: CommandMessage) -> Seq<u8> {
    h.magic_header@ + zero_bytes(0x18) + spec_u16_le(h.checksum) + zero_bytes(2) + spec_u16_le(
        h.device_type,
    ) + spec_u16_le(h.packet_type) + spec_u16_le(h.count) + h.mac_reversed@ + spec_u32_le(h.id)
        + spec_u16_le(h.payload_checksum) + zero_bytes(2)
}

/// Every byte of the serialized header, by offset.
pub proof fn lemma_serialize_header_index(h: CommandMessage)
    ensures
        spec_serialize_header(h).len() == 0x38,
        forall|i: int| 0 <= i < 8 ==> spec_serialize_header(h)[i] == h.magic_header@[i],
        forall|i: int| 8 <= i < 0x20 ==> spec_serialize_header(h)[i] == 0,
        spec_serialize_header(h)[0x20] == h.checksum % 0x100,
        spec_serialize_header(h)[0x21] == h.checksum / 0x100,
        spec_serialize_header(h)[0x22] == 0,
        spec_serialize_header(h)[0x23] == 0,
        spec_serialize_header(h)[0x24] == h.device_type % 0x100,
        spec_serialize_header(h)[0x25] == h.device_type / 0x100,
        spec_serialize_header(h)[0x26] == h.packet_type % 0x100,
        spec_serialize_header(h)[0x27] == h.packet_type / 0x100,
        spec_serialize_header(h)[0x28] == h.count % 0x100,
        spec_serialize_header(h)[0x29] == h.count / 0x100,
        forall|i: int|
            0x2A <= i < 0x30 ==> spec_serialize_header(h)[i] == h.mac_reversed@[i - 0x2A],
        spec_serialize_header(h)[0x30] == h.id % 0x100,
        spec_serialize_header(h)[0x31] == (h.id / 0x100) % 0x100,
        spec_serialize_header(h)[0x32] == (h.id / 0x10000) % 0x100,
        spec_serialize_header(h)[0x33] == (h.id / 0x1000000) % 0x100,
        spec_serialize_header(h)[0x34] == h.payload_checksum % 0x100,
        spec_serialize_header(h)[0x35] == h.payload_checksum / 0x100,
        spec_serialize_header(h)[0x36] == 0,
        spec_serialize_header(h)[0x37] == 0,
{
}

/// The envelope checksum field reassembles to the stored value, and so does
/// the payload checksum field.
pub proof fn lemma_serialize_header_checksum_fields(h: CommandMessage)
    ensures
        spec_u16_at(spec_serialize_header(h), 0x20) == h.checksum,
        spec_u16_at(spec_serialize_header(h), 0x34) == h.payload_checksum,
{
    lemma_serialize_header_index(h);
    lemma_fundamental_div_mod(h.checksum as int, 0x100);
    lemma_fundamental_div_mod(h.payload_checksum as int, 0x100);
}

// ---------------------------------------------------------------------------
// Executable serialization and parsing.
// ---------------------------------------------------------------------------

fn push_u16_le(out: &mut Vec<u8>, x: u16)
    ensures
        final(out)@ == old(out)@ + spec_u16_le(x),
{
    out.push((x % 0x100) as u8);
    out.push((x / 0x100) as u8);
    proof {
        assert(out@ =~= old(out)@ + spec_u16_le(x));
    }
}

fn push_u32_le(out: &mut Vec<u8>, x: u32)
    ensures
        final(out)@ == old(out)@ + spec_u32_le(x),
{
    out.push((x % 0x100) as u8);
    out.push(((x / 0x100) % 0x100) as u8);
    out.push(((x / 0x10000) % 0x100) as u8);
    out.push((x / 0x1000000) as u8);
    proof {
        assert(x / 0x1000000 < 0x100) by {
            assert(x < 0x100000000);
        };
        assert((x / 0x1000000) as u8 == ((x / 0x1000000) % 0x100) as u8);
        assert(out@ =~= old(out)@ + spec_u32_le(x));
    }
}

fn push_zero_bytes(out: &mut Vec<u8>, n: usize)
    ensures
        final(out)@ == old(out)@ + zero_bytes(n as nat),
{
    let mut i: usize = 0;
    while i < n
        invariant
            i <= n,
            out@ == old(out)@ + zero_bytes(i as nat),
        decreases n - i,
    {
        out.push(0);
        i = i + 1;
        proof {
            assert(out@ =~= old(out)@ + zero_bytes(i as nat));
        }
    }
}

/// Serializes the header into its 0x38 wire bytes.
pub fn serialize_header(h: &CommandMessage) -> (out: Vec<u8>)
    ensures
        out@ == spec_serialize_header(*h),
        out@.len() == 0x38,
{
    let mut out: Vec<u8> = Vec::new();
    out.push(h.magic_header[0]);
    out.push(h.magic_header[1]);
    out.push(h.magic_header[2]);
    out.push(h.magic_header[3]);
    out.push(h.magic_header[4]);
    out.push(h.magic_header[5]);
    out.push(h.magic_header[6]);
    out.push(h.magic_header[7]);
    proof {
        assert(out@ =~= h.magic_header@);
    }
    push_zero_bytes(&mut out, 0x18);
    push_u16_le(&mut out, h.checksum);
    push_zero_bytes(&mut out, 2);
    push_u16_le(&mut out, h.device_type);
    push_u16_le(&mut out, h.packet_type);
    push_u16_le(&mut out, h.count);
    let ghost before_mac = out@;
    out.push(h.mac_reversed[0]);
    out.push(h.mac_reversed[1]);
    out.push(h.mac_reversed[2]);
    out.push(h.mac_reversed[3]);
    out.push(h.mac_reversed[4]);
    out.push(h.mac_reversed[5]);
    proof {
        assert(out@ =~= before_mac + h.mac_reversed@);
    }
    push_u32_le(&mut out, h.id);
    push_u16_le(&mut out, h.payload_checksum);
    push_zero_bytes(&mut out, 2);
    proof {
        assert(out@ =~= spec_serialize_header(*h));
        lemma_serialize_header_index(*h);
    }
    out
}

fn read_u16_le(b: &[u8], i: usize) -> (x: u16)
    requires
        i + 2 <= b@.len(),
    ensures
        x == spec_u16_at(b@, i as int),
{
    b[i] as u16 + 0x100 * (b[i + 1] as u16)
}

fn read_u32_le(b: &[u8], i: usize) -> (x: u32)
    requires
        i + 4 <= b@.len(),
    ensures
        x == spec_u32_at(b@, i as int),
{
    b[i] as u32 + 0x100 * (b[i + 1] as u32) + 0x10000 * (b[i + 2] as u32) + 0x1000000 * (b[i
        + 3] as u32)
}

/// Parses the fixed header fields out of the first 0x38 bytes of a buffer.
pub fn parse_header(b: &[u8]) -> (h: CommandMessage)
    requires
        b@.len() >= 0x38,
    ensures
        h.magic_header@ == b@.subrange(0, 8),
        h.checksum == spec_u16_at(b@, 0x20),
        h.device_type == spec_u16_at(b@, 0x24),
        h.packet_type == spec_u16_at(b@, 0x26),
        h.count == spec_u16_at(b@, 0x28),
        h.mac_reversed@ == b@.subrange(0x2A, 0x30),
        h.id == spec_u32_at(b@, 0x30),
        h.payload_checksum == spec_u16_at(b@, 0x34),
{
    let magic = [b[0], b[1], b[2], b[3], b[4], b[5], b[6], b[7]];
    let mac = [b[0x2A], b[0x2B], b[0x2C], b[0x2D], b[0x2E], b[0x2F]];
    proof {
        assert(magic@ =~= b@.subrange(0, 8));
        assert(mac@ =~= b@.subrange(0x2A, 0x30));
    }
    CommandMessage {
        magic_header: magic,
        device_type: read_u16_le(b, 0x24),
        packet_type: read_u16_le(b, 0x26),
        count: read_u16_le(b, 0x28),
        mac_reversed: mac,
        id: read_u32_le(b, 0x30),
        checksum: read_u16_le(b, 0x20),
        payload_checksum: read_u16_le(b, 0x34),
    }
}

// ---------------------------------------------------------------------------
// The cipher, named and called through trusted wrappers.
// ---------------------------------------------------------------------------

/// The AES-128-CBC encryption, under the protocol's fixed initialization
/// vector, of a zero-padded plaintext: a function of key and plaintext
/// alone.
pub uninterp spec fn aes_cbc_encrypt(key: Seq<u8>, plaintext: Seq<u8>) -> Seq<u8>;

/// The AES-128-CBC decryption, under the fixed initialization vector, of a
/// nonempty whole number of cipher blocks, with the trailing zero padding
/// stripped down to at least one byte: a function of key and ciphertext
/// alone.
pub uninterp spec fn aes_cbc_decrypt(key: Seq<u8>, ciphertext: Seq<u8>) -> Seq<u8>;

/// A length rounded up to a whole number of 16-byte cipher blocks; one that
/// already is a whole number of blocks is kept, since zero padding then adds
/// no extra block.
pub open spec fn padded_len(n: int) -> int {
    if n % 16 == 0 {
        n
    } else {
        n + (16 - n % 16)
    }
}

/// A sequence with its trailing zero bytes removed, but never shortened
/// below one byte: what stripping zero padding leaves of a nonempty buffer.
pub open spec fn strip_trailing_zeros(s: Seq<u8>) -> Seq<u8>
    decreases s.len(),
{
    if s.len() <= 1 {
        s
    } else if s.last() != 0 {
        s
    } else {
        strip_trailing_zeros(s.drop_last())
    }
}

/// Stripping trailing zero bytes removes only bytes that contribute nothing,
/// so the additive checksum is unchanged.
pub proof fn lemma_checksum_strip_trailing_zeros(s: Seq<u8>)
    ensures
        sum_bytes(strip_trailing_zeros(s)) == sum_bytes(s),
        spec_checksum(strip_trailing_zeros(s)) == spec_checksum(s),
    decreases s.len(),
{
    if s.len() <= 1 || s.last() != 0 {
    } else {
        lemma_checksum_strip_trailing_zeros(s.drop_last());
    }
}

/// A nonempty payload whose last byte is not zero survives the zero-padding
/// round trip unchanged.
pub proof fn lemma_strip_trailing_zeros_noop(s: Seq<u8>)
    requires
        s.len() > 0,
        s.last() != 0,
    ensures
        strip_trailing_zeros(s) == s,
{
}

/// Relies on `block_modes`' `Cbc<Aes128, ZeroPadding>`: `encrypt_vec`
/// zero-pads the plaintext to a whole number of 16-byte blocks (adding no
/// block when it already is one) and encrypts it with AES-128-CBC under the
/// fixed initialization vector, so the ciphertext is a function of key and
/// plaintext alone; `decrypt_vec` of that ciphertext under the same key
/// inverts the cipher and strips the trailing zero bytes, which on a
/// nonempty plaintext leaves exactly `strip_trailing_zeros` of it.
#[verifier::external_body]
fn aes_cbc_encrypt_vec(key: &[u8; 16], plaintext: &[u8]) -> (r: Vec<u8>)
    requires
        plaintext@.len() + 16 <= usize::MAX,
    ensures
        r@ == aes_cbc_encrypt(key@, plaintext@),
        r@.len() == padded_len(plaintext@.len() as int),
        r@.len() % 16 == 0,
        plaintext@.len() > 0 ==> aes_cbc_decrypt(key@, r@) == strip_trailing_zeros(plaintext@),
{
    let cipher: Cbc<Aes128, ZeroPadding> = Cbc::new_from_slices(key, &INITIAL_VECTOR).unwrap();
    cipher.encrypt_vec(plaintext)
}

/// Relies on the same `block_modes` cipher: `decrypt_vec` fails exactly when
/// the input is not a whole number of 16-byte blocks, and otherwise returns
/// the AES-128-CBC decryption under the fixed initialization vector with all
/// trailing zero bytes stripped, at least one byte remaining — a function of
/// key and ciphertext alone.
#[verifier::external_body]
fn aes_cbc_decrypt_vec(key: &[u8; 16], ciphertext: &[u8]) -> (r: Option<Vec<u8>>)
    requires
        ciphertext@.len() >= 1,
    ensures
        r is Some <==> ciphertext@.len() % 16 == 0,
        r is Some ==> r.unwrap()@ == aes_cbc_decrypt(key@, ciphertext@) && 1 <= r.unwrap()@.len()
            <= ciphertext@.len(),
{
    let cipher: Cbc<Aes128, ZeroPadding> = Cbc::new_from_slices(key, &INITIAL_VECTOR).unwrap();
    cipher.decrypt_vec(ciphertext).ok()
}

/// Relies on `rand`'s `thread_rng` and `Rng::gen_range`: the draw lies in
/// the half-open range it is given. Nothing else can be promised of a
/// random value.
#[verifier::external_body]
fn random_count() -> (r: u16)
    ensures
        0x8000 <= r < 0xFFFF,
{
    rand::thread_rng().gen_range(0x8000..0xFFFF)
}

// ---------------------------------------------------------------------------
// Packing and unpacking, specified end to end.
// ---------------------------------------------------------------------------

/// A buffer with the two bytes of its envelope checksum field zeroed, as the
/// checksum is computed during packing and verification.
pub open spec fn zero_checksum_field(b: Seq<u8>) -> Seq<u8> {
    b.update(0x20, 0u8).update(0x21, 0u8)
}

/// A wire buffer whose stored envelope checksum agrees with the additive
/// checksum of the buffer as if the checksum field were zero. Every packed
/// envelope satisfies this, and unpacking rejects everything that does not.
pub open spec fn checksum_valid(b: Seq<u8>) -> bool {
    &&& b.len() >= 0x38
    &&& spec_u16_at(b, 0x20) == spec_checksum(zero_checksum_field(b))
}

/// The wire bytes of a packed envelope: the header — carrying the payload's
/// checksum and, in its checksum field, the additive checksum of the header
/// (with that field zeroed) concatenated with the ciphertext — followed by
/// the ciphertext of the zero-padded payload.
pub open spec fn spec_pack(h: CommandMessage, payload: Seq<u8>, key: Seq<u8>) -> Seq<u8> {
    let ct = aes_cbc_encrypt(key, payload);
    let h1 = CommandMessage { checksum: 0, payload_checksum: spec_checksum(payload), ..h };
    let c = spec_checksum(spec_serialize_header(h1) + ct);
    let h2 = CommandMessage { checksum: c, ..h1 };
    spec_serialize_header(h2) + ct
}

/// The result of validating and decrypting a received wire buffer:
/// a header-only buffer signals a locked device; a shorter one is truncated;
/// then the envelope checksum is verified over the buffer with its checksum
/// field zeroed, the remainder is decrypted, and the payload checksum is
/// verified over the plaintext.
pub open spec fn spec_unpack(b: Seq<u8>, key: Seq<u8>) -> Result<Seq<u8>, Error> {
    if b.len() == 0x38 {
        Err(Error::DeviceLockedError)
    } else if b.len() < 0x38 {
        Err(Error::TruncatedMessageError)
    } else {
        let stored = spec_u16_at(b, 0x20);
        let computed = spec_checksum(zero_checksum_field(b));
        if stored != computed {
            Err(Error::ChecksumMismatchError { expected: computed, actual: stored })
        } else if (b.len() - 0x38) % 16 != 0 {
            Err(Error::DecryptionError)
        } else {
            let plaintext = aes_cbc_decrypt(key, b.skip(0x38));
            let stored_pc = spec_u16_at(b, 0x34);
            let computed_pc = spec_checksum(plaintext);
            if stored_pc != computed_pc {
                Err(
                    Error::PayloadChecksumMismatchError {
                        expected: computed_pc,
                        actual: stored_pc,
                    },
                )
            } else {
                Ok(plaintext)
            }
        }
    }
}

/// Computes the additive checksum of a buffer as if the two bytes of the
/// envelope checksum field were zero, without changing the buffer.
pub fn checksum_with_zeroed_checksum_field(data: &[u8]) -> (r: u16)
    requires
        data@.len() >= 0x38,
    ensures
        r == spec_checksum(zero_checksum_field(data@)),
{
    let ghost z = zero_checksum_field(data@);
    proof {
        assert(z.len() == data@.len());
    }
    let mut sum: u32 = 0xBEAF;
    let mut i: usize = 0;
    while i < data.len()
        invariant
            data@.len() >= 0x38,
            z == zero_checksum_field(data@),
            i <= data@.len(),
            sum == (0xBEAF + sum_bytes(z.take(i as int))) % 0x10000,
        decreases data@.len() - i,
    {
        let byte: u8 = if i == 0x20 || i == 0x21 {
            0
        } else {
            data[i]
        };
        proof {
            assert(z[i as int] == byte);
            lemma_step_additive(z, i as int, sum as int);
        }
        sum = (sum + byte as u32) % 0x10000;
        i = i + 1;
    }
    proof {
        assert(z.take(z.len() as int) =~= z);
    }
    sum as u16
}

impl CommandMessage {
    /// Creates a message with the given sequence number, whose top bit is
    /// forced set to mark it as a command. Typically the count is drawn at
    /// random by [`CommandMessage::new`]; an explicit count serves callers
    /// that need a deterministic value.
    pub fn with_count(
        count: u16,
        device_model_code: u16,
        mac: [u8; 6],
        id: u32,
        packet_type: u16,
    ) -> (r: CommandMessage)
        ensures
            r.magic_header@ == spec_magic(),
            r.device_type == device_model_code,
            r.packet_type == packet_type,
            r.count == count | 0x8000,
            r.count >= 0x8000,
            r.mac_reversed@ == spec_reverse_mac(mac@),
            r.id == id,
            r.checksum == 0,
            r.payload_checksum == 0,
    {
        let r = CommandMessage {
            magic_header: [0x5A, 0xA5, 0xAA, 0x55, 0x5A, 0xA5, 0xAA, 0x55],
            device_type: device_model_code,
            packet_type,
            count: count | 0x8000,
            mac_reversed: reverse_mac(mac),
            id,
            checksum: 0,
            payload_checksum: 0,
        };
        proof {
            assert(r.magic_header@ =~= spec_magic());
            assert(count | 0x8000 >= 0x8000) by (bit_vector);
        }
        r
    }

    /// Creates a message with a randomly drawn sequence number; all other
    /// fields are as [`CommandMessage::with_count`] sets them.
    pub fn new(device_model_code: u16, mac: [u8; 6], id: u32, packet_type: u16) -> (r:
        CommandMessage)
        ensures
            r.magic_header@ == spec_magic(),
            r.device_type == device_model_code,
            r.packet_type == packet_type,
            0x8000 <= r.count < 0xFFFF,
            r.mac_reversed@ == spec_reverse_mac(mac@),
            r.id == id,
            r.checksum == 0,
            r.payload_checksum == 0,
    {
        let count = random_count();
        proof {
            let c = count;
            assert(c >= 0x8000 ==> c | 0x8000 == c) by (bit_vector);
        }
        CommandMessage::with_count(count, device_model_code, mac, id, packet_type)
    }

    /// Packs the message with the payload appended: the payload checksum is
    /// stored, the payload is encrypted, and the envelope checksum is
    /// computed over the header (with a zeroed checksum field) followed by
    /// the ciphertext.
    ///
    /// Packing never fails on a well-typed 16-byte key. Unpacking the result
    /// with the same key yields the payload again, up to the trailing zero
    /// bytes that zero padding cannot represent — exactly the payload
    /// whenever its last byte is nonzero — and a header-only envelope (empty
    /// payload) unpacks as the device-locked signal.
    pub fn pack_with_payload(self, payload: &[u8], key: &[u8; 16]) -> (r: Result<Vec<u8>, Error>)
        requires
            payload@.len() + 0x48 <= usize::MAX,
        ensures
            r is Ok,
            r.unwrap()@ == spec_pack(self, payload@, key@),
            r.unwrap()@.len() == 0x38 + padded_len(payload@.len() as int),
            checksum_valid(r.unwrap()@),
            payload@.len() == 0 ==> spec_unpack(r.unwrap()@, key@) == Err::<Seq<u8>, Error>(
                Error::DeviceLockedError,
            ),
            payload@.len() > 0 ==> spec_unpack(r.unwrap()@, key@) == Ok::<Seq<u8>, Error>(
                strip_trailing_zeros(payload@),
            ),
    {
        let payload_checksum = checksum(payload);
        let encrypted = aes_cbc_encrypt_vec(key, payload);
        let h1 = CommandMessage { checksum: 0, payload_checksum, ..self };
        let mut buf = serialize_header(&h1);
        extend_from_bytes(&mut buf, encrypted.as_slice());
        let total_checksum = checksum(buf.as_slice());
        let h2 = CommandMessage { checksum: total_checksum, ..h1 };
        let mut out = serialize_header(&h2);
        extend_from_bytes(&mut out, encrypted.as_slice());
        proof {
            lemma_pack_well_formed(h1, h2, payload@, key@);
        }
        Ok(out)
    }

    /// Validates and decrypts a received wire buffer, returning the
    /// plaintext payload.
    ///
    /// A buffer of exactly 0x38 bytes is the device-locked signal, a shorter
    /// one is truncated (nothing is decrypted in either case); then the
    /// envelope checksum is verified over the buffer as if its checksum
    /// field were zero, the ciphertext is decrypted, and the payload
    /// checksum is verified over the plaintext. Each gate reports its own
    /// typed error, with the expected and stored values where checksums
    /// disagree.
    pub fn unpack_with_payload(bytes: Vec<u8>, key: &[u8; 16]) -> (r: Result<Vec<u8>, Error>)
        ensures
            match r {
                Ok(v) => spec_unpack(bytes@, key@) == Ok::<Seq<u8>, Error>(v@),
                Err(e) => spec_unpack(bytes@, key@) == Err::<Seq<u8>, Error>(e),
            },
            bytes@.len() == 0x38 ==> r == Err::<Vec<u8>, Error>(Error::DeviceLockedError),
            bytes@.len() < 0x38 ==> r == Err::<Vec<u8>, Error>(Error::TruncatedMessageError),
    {
        if bytes.len() == HEADER_SIZE {
            return Err(Error::DeviceLockedError);
        }
        if bytes.len() < HEADER_SIZE {
            return Err(Error::TruncatedMessageError);
        }
        let header = parse_header(bytes.as_slice());
        let computed = checksum_with_zeroed_checksum_field(bytes.as_slice());
        if header.checksum != computed {
            return Err(Error::ChecksumMismatchError { expected: computed, actual: header.checksum });
        }
        let ciphertext = slice_subrange(bytes.as_slice(), HEADER_SIZE, bytes.len());
        proof {
            assert(ciphertext@ =~= bytes@.skip(0x38));
        }
        match aes_cbc_decrypt_vec(key, ciphertext) {
            None => Err(Error::DecryptionError),
            Some(plaintext) => {
                let computed_pc = checksum(plaintext.as_slice());
                if header.payload_checksum != computed_pc {
                    return Err(
                        Error::PayloadChecksumMismatchError {
                            expected: computed_pc,
                            actual: header.payload_checksum,
                        },
                    );
                }
                Ok(plaintext)
            },
        }
    }
}

fn extend_from_bytes(dst: &mut Vec<u8>, src: &[u8])
    ensures
        final(dst)@ == old(dst)@ + src@,
{
    let mut i: usize = 0;
    proof {
        assert(dst@ =~= old(dst)@ + src@.take(0));
    }
    while i < src.len()
        invariant
            i <= src@.len(),
            dst@ == old(dst)@ + src@.take(i as int),
        decreases src@.len() - i,
    {
        dst.push(src[i]);
        i = i + 1;
        proof {
            assert(dst@ =~= old(dst)@ + src@.take(i as int));
        }
    }
    proof {
        assert(src@.take(src@.len() as int) =~= src@);
    }
}

/// The header serializations of two messages that differ at most in their
/// checksum field agree on every byte outside the two checksum-field
/// positions.
proof fn lemma_serialize_agrees_off_checksum(h1: CommandMessage, h2: CommandMessage)
    requires
        h1.magic_header == h2.magic_header,
        h1.device_type == h2.device_type,
        h1.packet_type == h2.packet_type,
        h1.count == h2.count,
        h1.mac_reversed == h2.mac_reversed,
        h1.id == h2.id,
        h1.payload_checksum == h2.payload_checksum,
    ensures
        forall|i: int|
            0 <= i < 0x38 && i != 0x20 && i != 0x21 ==> spec_serialize_header(h1)[i]
                == spec_serialize_header(h2)[i],
{
    lemma_serialize_header_index(h1);
    lemma_serialize_header_index(h2);
}

/// What packing produces: a checksum-consistent buffer that unpacks to the
/// stripped payload (or to the device-locked signal when the payload is
/// empty).
proof fn lemma_pack_well_formed(h1: CommandMessage, h2: CommandMessage, payload: Seq<u8>, key: Seq<u8>)
    requires
        h1.checksum == 0,
        h1.payload_checksum == spec_checksum(payload),
        h2 == (CommandMessage { checksum: h2.checksum, ..h1 }),
        h2.checksum == spec_checksum(
            spec_serialize_header(h1) + aes_cbc_encrypt(key, payload),
        ),
        aes_cbc_encrypt(key, payload).len() == padded_len(payload.len() as int),
        aes_cbc_encrypt(key, payload).len() % 16 == 0,
        payload.len() > 0 ==> aes_cbc_decrypt(key, aes_cbc_encrypt(key, payload))
            == strip_trailing_zeros(payload),
    ensures
        spec_serialize_header(h2) + aes_cbc_encrypt(key, payload) == spec_pack(
            (CommandMessage { checksum: h2.checksum, payload_checksum: h2.payload_checksum, ..h1 }),
            payload,
            key,
        ),
        checksum_valid(spec_serialize_header(h2) + aes_cbc_encrypt(key, payload)),
        payload.len() == 0 ==> spec_unpack(
            spec_serialize_header(h2) + aes_cbc_encrypt(key, payload),
            key,
        ) == Err::<Seq<u8>, Error>(Error::DeviceLockedError),
        payload.len() > 0 ==> spec_unpack(
            spec_serialize_header(h2) + aes_cbc_encrypt(key, payload),
            key,
        ) == Ok::<Seq<u8>, Error>(strip_trailing_zeros(payload)),
{
    let ct = aes_cbc_encrypt(key, payload);
    let s1 = spec_serialize_header(h1);
    let s2 = spec_serialize_header(h2);
    let b = s2 + ct;
    lemma_serialize_header_index(h1);
    lemma_serialize_header_index(h2);
    lemma_serialize_agrees_off_checksum(h1, h2);
    lemma_serialize_header_checksum_fields(h2);
    assert(b.len() == 0x38 + ct.len());
    // The packed buffer with its checksum field zeroed is exactly the buffer
    // the checksum was computed over.
    assert(zero_checksum_field(b) =~= s1 + ct) by {
        assert(s1[0x20] == 0 && s1[0x21] == 0);
        assert(forall|i: int| 0x38 <= i < b.len() ==> b[i] == ct[i - 0x38]);
    };
    assert(spec_u16_at(b, 0x20) == spec_u16_at(s2, 0x20));
    assert(checksum_valid(b));
    // The packed buffer is what spec_pack says.
    assert(spec_serialize_header(
        CommandMessage { checksum: h2.checksum, payload_checksum: h2.payload_checksum, ..h1 },
    ) == s2);
    if payload.len() == 0 {
        assert(b.len() == 0x38);
    } else {
        assert(padded_len(payload.len() as int) >= 16);
        assert(b.len() > 0x38);
        assert((b.len() - 0x38) % 16 == 0);
        assert(b.skip(0x38) =~= ct);
        assert(spec_u16_at(b, 0x34) == spec_u16_at(s2, 0x34));
        lemma_checksum_strip_trailing_zeros(payload);
        assert(spec_unpack(b, key) == Ok::<Seq<u8>, Error>(strip_trailing_zeros(payload)));
    }
}

/// Tampering with a checksum-consistent envelope — changing any single byte
/// of header or ciphertext outside the stored checksum field itself, which
/// in particular covers flipping any single bit there — makes unpacking
/// fail with a checksum mismatch rather than succeed silently.
pub proof fn lemma_tamper_detected(b: Seq<u8>, key: Seq<u8>, i: int, v: u8)
    requires
        b.len() > 0x38,
        checksum_valid(b),
        0 <= i < b.len(),
        i != 0x20,
        i != 0x21,
        v != b[i],
    ensures
        spec_unpack(b.update(i, v), key) == Err::<Seq<u8>, Error>(
            Error::ChecksumMismatchError {
                expected: spec_checksum(zero_checksum_field(b.update(i, v))),
                actual: spec_u16_at(b, 0x20),
            },
        ),
{
    let b2 = b.update(i, v);
    assert(b2.len() == b.len());
    assert(b2[0x20] == b[0x20] && b2[0x21] == b[0x21]);
    assert(spec_u16_at(b2, 0x20) == spec_u16_at(b, 0x20));
    assert(zero_checksum_field(b2) =~= zero_checksum_field(b).update(i, v));
    assert(zero_checksum_field(b)[i] == b[i]);
    lemma_checksum_detects_byte_change(zero_checksum_field(b), i, v);
    assert(spec_checksum(zero_checksum_field(b2)) != spec_u16_at(b2, 0x20));
}

} // verus!
