//! Fixed-width, bit-masked unsigned integers.
//!
//! A [`Uint<BITS, S>`](uint::Uint) holds a value of a native unsigned storage
//! kind `S`, always reduced modulo `2^BITS`. Arithmetic wraps at `BITS` bits,
//! matching hardware registers, packed bit-fields and protocol counters of
//! non-native width.

pub mod laws;
pub mod storage;
pub mod text;
pub mod uint;

pub use storage::Storage;
pub use uint::Uint;
