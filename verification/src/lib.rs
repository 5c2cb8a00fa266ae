//! A reversible, obfuscating numeric codec over a fixed 128-symbol Hangul
//! alphabet: a non-negative integer becomes a variable-length string whose
//! first symbol is a per-encoding scramble offset (the seed), so one number
//! has up to 128 distinct but equally decodable spellings.

pub mod alphabet;
pub mod codec;
pub mod digits;
pub mod format;

pub use alphabet::symbol_spec;
pub use alphabet::index_spec;
pub use codec::CodecError;
pub use codec::HangulNumberConverter;
