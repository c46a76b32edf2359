//! Decoder for the Mini-PNG chunked image container.
//!
//! A file is an eight-byte magic prefix followed by chunks, each a one-byte tag, a
//! four-byte big-endian payload length and the payload. Decoding runs in stages, each on
//! what the stage before it gave, and stops at the first failure:
//!
//! - [`cursor`] reads bytes and big-endian integers from a buffer, bounds-checked;
//! - [`parser`] splits a file into typed blocks and checks the blocks against each other;
//! - [`display`] rebuilds the pixel buffer that the header announces and renders it as
//!   terminal text;
//! - [`decoder`] runs the stages one after the other.
//!
//! [`format`] writes the file layout down in the other direction, from chunks to bytes,
//! and proves what the parser answers to files laid out that way. [`errors`] holds the
//! error type that all stages share and [`text`] the helpers that build strings.

pub mod cursor;
pub mod decoder;
pub mod display;
pub mod errors;
pub mod format;
pub mod parser;
pub mod text;
