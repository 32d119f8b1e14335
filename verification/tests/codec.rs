//! End-to-end tests of the checksum engine, the MAC utility and the command
//! envelope codec, exercised with the real cipher.

use rbroadlink::checksum::{checksum, compute_generic_checksum};
use rbroadlink::command::CommandMessage;
use rbroadlink::error::Error;
use rbroadlink::mac::reverse_mac;

const KEY: [u8; 16] = [
    0x09, 0x76, 0x28, 0x34, 0x3F, 0xE9, 0x9E, 0x23, 0x76, 0x5C, 0x15, 0x13, 0xAC, 0xCF, 0x8B, 0x02,
];

fn sample_message() -> CommandMessage {
    CommandMessage::with_count(0x0001, 0x2712, [0xAA, 0xBB, 0xCC, 0x11, 0x22, 0x33], 0, 0x0065)
}

/// Rewrites the envelope checksum field so the buffer is checksum-consistent
/// again after a deliberate edit elsewhere in the header.
fn fix_outer_checksum(buf: &mut Vec<u8>) {
    buf[0x20] = 0;
    buf[0x21] = 0;
    let c = checksum(buf);
    buf[0x20] = (c % 0x100) as u8;
    buf[0x21] = (c / 0x100) as u8;
}

#[test]
fn additive_checksum_examples() {
    assert_eq!(checksum(&[]), 0xBEAF);
    assert_eq!(checksum(&[0x01]), 0xBEB0);
    assert_eq!(checksum(&[0xFF, 0xFF]), 0xC0AD);
}

#[test]
fn additive_checksum_deterministic_and_matches_formula() {
    let data: Vec<u8> = (0u16..1000).map(|i| (i % 251) as u8).collect();
    let first = checksum(&data);
    let second = checksum(&data);
    assert_eq!(first, second);
    let expected = ((0xBEAFu32 + data.iter().map(|&b| b as u32).sum::<u32>()) % 0x10000) as u16;
    assert_eq!(first, expected);
}

#[test]
fn additive_checksum_ignores_trailing_zeros() {
    let data = [0x01, 0x02, 0x03];
    let padded = [0x01, 0x02, 0x03, 0x00, 0x00, 0x00];
    assert_eq!(checksum(&data), checksum(&padded));
}

#[test]
fn generic_checksum_of_all_zero_buffer_is_zero() {
    assert_eq!(compute_generic_checksum(&[0x00, 0x00, 0x00, 0x00]), 0x0000);
}

#[test]
fn generic_checksum_examples() {
    // One word 0x0201: 0xFFFF + 0x0201 folds to 0x0201, complement 0xFDFE.
    assert_eq!(compute_generic_checksum(&[0x01, 0x02]), 0xFDFE);
    // Odd trailing byte is zero-extended: 0xFFFF + 0x0001 folds to 0x0001.
    assert_eq!(compute_generic_checksum(&[0x01]), 0xFFFE);
    assert_eq!(compute_generic_checksum(&[]), 0x0000);
}

#[test]
fn reverse_mac_reverses() {
    assert_eq!(reverse_mac([1, 2, 3, 4, 5, 6]), [6, 5, 4, 3, 2, 1]);
}

#[test]
fn reverse_mac_is_its_own_inverse() {
    let mac = [0xDE, 0xAD, 0xBE, 0xEF, 0x01, 0x02];
    assert_eq!(reverse_mac(reverse_mac(mac)), mac);
}

#[test]
fn with_count_forces_top_bit() {
    let m = CommandMessage::with_count(0x1234, 0x2712, [1, 2, 3, 4, 5, 6], 7, 0x006A);
    assert_eq!(m.count, 0x9234);
    assert_eq!(m.device_type, 0x2712);
    assert_eq!(m.packet_type, 0x006A);
    assert_eq!(m.id, 7);
    assert_eq!(m.mac_reversed, [6, 5, 4, 3, 2, 1]);
    assert_eq!(m.magic_header, [0x5A, 0xA5, 0xAA, 0x55, 0x5A, 0xA5, 0xAA, 0x55]);
    assert_eq!(m.checksum, 0);
    assert_eq!(m.payload_checksum, 0);
}

#[test]
fn new_draws_count_in_command_range() {
    for _ in 0..32 {
        let m = CommandMessage::new(0x2712, [1, 2, 3, 4, 5, 6], 0, 0x0065);
        assert!(m.count >= 0x8000);
        assert!(m.count < 0xFFFF);
    }
}

#[test]
fn pack_layout_and_length() {
    let payload = [0x01, 0x02, 0x03];
    let packed = sample_message().pack_with_payload(&payload, &KEY).unwrap();
    // Three plaintext bytes round up to one cipher block.
    assert_eq!(packed.len(), 0x38 + 16);
    assert_eq!(&packed[0..8], &[0x5A, 0xA5, 0xAA, 0x55, 0x5A, 0xA5, 0xAA, 0x55]);
    // The ciphertext is not the zero-padded plaintext: the cipher ran.
    let mut padded = vec![0x01, 0x02, 0x03];
    padded.resize(16, 0);
    assert_ne!(&packed[0x38..], padded.as_slice());
    // The stored payload checksum is the checksum of the plaintext.
    let pc = packed[0x34] as u16 + 0x100 * packed[0x35] as u16;
    assert_eq!(pc, checksum(&payload));
    // The stored envelope checksum is consistent with the whole buffer.
    let stored = packed[0x20] as u16 + 0x100 * packed[0x21] as u16;
    let mut zeroed = packed.clone();
    zeroed[0x20] = 0;
    zeroed[0x21] = 0;
    assert_eq!(stored, checksum(&zeroed));
}

#[test]
fn pack_unpack_round_trip() {
    let payload = [0x01, 0x02, 0x03];
    let packed = sample_message().pack_with_payload(&payload, &KEY).unwrap();
    let plain = CommandMessage::unpack_with_payload(packed, &KEY).unwrap();
    assert_eq!(plain, payload.to_vec());
}

#[test]
fn pack_unpack_round_trip_whole_block() {
    let payload: Vec<u8> = (1u8..=16).collect();
    let packed = sample_message().pack_with_payload(&payload, &KEY).unwrap();
    assert_eq!(packed.len(), 0x38 + 16);
    let plain = CommandMessage::unpack_with_payload(packed, &KEY).unwrap();
    assert_eq!(plain, payload);
}

#[test]
fn pack_unpack_strips_trailing_zero_padding() {
    // Zero padding cannot represent trailing zero bytes; they come back
    // stripped.
    let payload = [0x01, 0x02, 0x00];
    let packed = sample_message().pack_with_payload(&payload, &KEY).unwrap();
    let plain = CommandMessage::unpack_with_payload(packed, &KEY).unwrap();
    assert_eq!(plain, vec![0x01, 0x02]);
}

#[test]
fn empty_payload_packs_to_header_only_and_signals_locked() {
    let packed = sample_message().pack_with_payload(&[], &KEY).unwrap();
    assert_eq!(packed.len(), 0x38);
    let result = CommandMessage::unpack_with_payload(packed, &KEY);
    assert_eq!(result, Err(Error::DeviceLockedError));
}

#[test]
fn header_only_buffer_signals_device_locked() {
    let buffer = vec![0u8; 0x38];
    let result = CommandMessage::unpack_with_payload(buffer, &KEY);
    assert_eq!(result, Err(Error::DeviceLockedError));
}

#[test]
fn short_buffer_is_truncated() {
    let result = CommandMessage::unpack_with_payload(vec![0u8; 10], &KEY);
    assert_eq!(result, Err(Error::TruncatedMessageError));
    let result = CommandMessage::unpack_with_payload(Vec::new(), &KEY);
    assert_eq!(result, Err(Error::TruncatedMessageError));
    let result = CommandMessage::unpack_with_payload(vec![0u8; 0x37], &KEY);
    assert_eq!(result, Err(Error::TruncatedMessageError));
}

#[test]
fn single_bit_flip_in_header_is_detected() {
    let packed = sample_message()
        .pack_with_payload(&[0x01, 0x02, 0x03], &KEY)
        .unwrap();
    let mut tampered = packed.clone();
    tampered[0x24] ^= 0x01;
    let result = CommandMessage::unpack_with_payload(tampered, &KEY);
    assert!(matches!(result, Err(Error::ChecksumMismatchError { .. })));
}

#[test]
fn single_bit_flip_in_ciphertext_is_detected() {
    let packed = sample_message()
        .pack_with_payload(&[0x01, 0x02, 0x03], &KEY)
        .unwrap();
    for bit in 0..8 {
        let mut tampered = packed.clone();
        tampered[0x38] ^= 1 << bit;
        let result = CommandMessage::unpack_with_payload(tampered, &KEY);
        assert!(matches!(result, Err(Error::ChecksumMismatchError { .. })));
    }
}

#[test]
fn checksum_mismatch_reports_expected_and_actual() {
    let packed = sample_message()
        .pack_with_payload(&[0x01, 0x02, 0x03], &KEY)
        .unwrap();
    let stored = packed[0x20] as u16 + 0x100 * packed[0x21] as u16;
    let mut tampered = packed.clone();
    tampered[0x05] = tampered[0x05].wrapping_add(1);
    let mut zeroed = tampered.clone();
    zeroed[0x20] = 0;
    zeroed[0x21] = 0;
    let recomputed = checksum(&zeroed);
    let result = CommandMessage::unpack_with_payload(tampered, &KEY);
    assert_eq!(
        result,
        Err(Error::ChecksumMismatchError { expected: recomputed, actual: stored })
    );
}

#[test]
fn payload_checksum_mismatch_is_detected() {
    let packed = sample_message()
        .pack_with_payload(&[0x01, 0x02, 0x03], &KEY)
        .unwrap();
    let mut tampered = packed.clone();
    // Corrupt the stored payload checksum, then repair the envelope
    // checksum so only the inner gate can catch it.
    tampered[0x34] = tampered[0x34].wrapping_add(1);
    fix_outer_checksum(&mut tampered);
    let result = CommandMessage::unpack_with_payload(tampered, &KEY);
    assert!(matches!(
        result,
        Err(Error::PayloadChecksumMismatchError { .. })
    ));
}

#[test]
fn ragged_ciphertext_fails_decryption() {
    // A checksum-consistent buffer whose remainder is not a whole number of
    // cipher blocks.
    let mut buffer = vec![0u8; 0x38 + 5];
    fix_outer_checksum(&mut buffer);
    let result = CommandMessage::unpack_with_payload(buffer, &KEY);
    assert_eq!(result, Err(Error::DecryptionError));
}

#[test]
fn wrong_key_does_not_yield_the_payload() {
    let payload = [0x10, 0x20, 0x30, 0x40];
    let packed = sample_message().pack_with_payload(&payload, &KEY).unwrap();
    let mut other_key = KEY;
    other_key[0] ^= 0xFF;
    let result = CommandMessage::unpack_with_payload(packed, &other_key);
    assert_ne!(result, Ok(payload.to_vec()));
}
