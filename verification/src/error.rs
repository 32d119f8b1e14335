//! The error taxonomy of the protocol engine. Every failure of the codec,
//! the transport decision logic, or address selection is one of these typed
//! values; nothing is reported as a bare string and nothing is swallowed.

use vstd::prelude::*;

verus! {

/// A typed failure of an exchange or of envelope validation.
///
/// Codec failures (`TruncatedMessage` through `Decryption`) judge a single
/// received datagram; transport failures describe the exchange itself.
#[derive(Clone, Copy, Debug, PartialEq, Eq, Structural)]
pub enum Error {
    /// Binding the socket or enabling broadcast failed; fatal to the exchange.
    TransportSetupError,
    /// The single datagram send failed; fatal to the exchange.
    SendError,
    /// No reply arrived before the timeout in collect-first mode.
    NoResponseError,
    /// A received buffer is shorter than the fixed envelope header.
    TruncatedMessageError,
    /// A received buffer is exactly the header with no payload: the device
    /// signals that it is locked. This is not a malformed message.
    DeviceLockedError,
    /// The envelope checksum recomputed over the buffer (with the checksum
    /// field zeroed) disagrees with the stored field.
    ChecksumMismatchError { expected: u16, actual: u16 },
    /// The plaintext checksum recomputed after decryption disagrees with the
    /// stored payload checksum field.
    PayloadChecksumMismatchError { expected: u16, actual: u16 },
    /// The ciphertext could not be decrypted (its length is not a whole
    /// number of cipher blocks).
    DecryptionError,
    /// The payload could not be encrypted (malformed key material).
    EncryptionError,
    /// No explicit local address was given and no non-loopback IPv4
    /// interface address could be found.
    NoLocalAddressError,
}

} // verus!
