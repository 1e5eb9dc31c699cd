//! Decryption of EasyCrypt version 2 containers: header parsing, password
//! verification, chunked AES-256-CBC decryption and checksum comparison.

pub mod container;
pub mod crypto;
pub mod hex;
pub mod laws;
