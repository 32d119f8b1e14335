//! Protocol engine for discovering and controlling networked universal-remote
//! devices: a fixed-layout command envelope with dual additive checksums and
//! AES-128-CBC payload encryption, together with the pure decision logic of a
//! UDP broadcast transport (collect-first / collect-all reply policies) and
//! local address selection.

pub mod addr;
pub mod checksum;
pub mod command;
pub mod error;
pub mod mac;
pub mod transport;
