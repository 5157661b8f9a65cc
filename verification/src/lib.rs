//! A digest engine over MD5, SHA-256 and BLAKE3: strict decoding of hex byte
//! literals, ordering of text and file inputs, one-shot and incremental hashing,
//! and the framed rendering of a digest.

pub mod digest;
pub mod hex;
pub mod inputs;
pub mod output;
pub mod run;
mod text;
