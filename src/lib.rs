//! Passphrase-based authenticated encryption of a single file.
//!
//! A file is sealed with Encrypt-then-MAC: scrypt stretches the passphrase
//! into a 32-byte XSalsa20 key and a 64-byte BLAKE2b-512 key, the payload is
//! enciphered chunk by chunk, and the MAC covers the ciphertext. The result is
//! a self-describing container: a 99-byte header, the ciphertext, and a
//! 64-byte tag.

pub mod container;
pub mod engine;
pub mod format;
pub mod kdf;
pub mod laws;
pub mod primitives;
