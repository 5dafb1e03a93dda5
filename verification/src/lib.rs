//! Decoding of a chunked pack-file container, and recovery of the layouts of
//! its records from the reflection tables that an executable image embeds.
//!
//! The decode side reads little-endian values from a cursor over the input
//! ([`parse`]), reaches arrays, references and byte windows through
//! self-relative pointers, and walks the chunks of a container ([`pf`]),
//! selecting the decoder of each by its magic and version ([`formats`]).
//!
//! The recovery side ([`analyze`]) reads the section table of an image,
//! scans the image for chunk descriptors, and follows their pointers to
//! field lists, from which it builds a type graph ([`structure`]) that can
//! be rendered as declarations ([`generate`]).

use vstd::prelude::*;

pub mod bytes;
pub mod deserializer;
pub mod parse;
pub mod pf;
pub mod wstr;
pub mod filename;
pub mod formats;
pub mod structure;
pub mod analyze;
pub mod generate;

pub use crate::filename::FileName;
pub use crate::wstr::WString;

verus! {

/// Packs a two-character code into its little-endian 16-bit tag.
pub fn tcc(code: &[u8; 2]) -> (tag: u16)
    ensures
        tag == bytes::le_u16(code@),
{
    code[0] as u16 + 0x100 * (code[1] as u16)
}

/// Packs a four-character code into its little-endian 32-bit tag.
pub fn fcc(code: &[u8; 4]) -> (tag: u32)
    ensures
        tag == bytes::le_u32(code@),
{
    code[0] as u32 + 0x100 * (code[1] as u32) + 0x1_0000 * (code[2] as u32) + 0x100_0000 * (
    code[3] as u32)
}

} // verus!
