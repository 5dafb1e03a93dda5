//! Decoding of the fixed-width numbers: each is read little-endian from
//! the front of the input. A float is kept as its bit pattern.

use vstd::prelude::*;
use crate::bytes::{le_u16, le_u32, le_u64, read_u16, read_u32, read_u64};
use crate::parse::{is_tail, BinarySize, Error, Input, Parse, TypeLabel};

verus! {

/// The signed reading of an unsigned number `u` below `2 * half`.
pub open spec fn twos_complement(u: int, half: int) -> int {
    if u < half {
        u
    } else {
        u - 2 * half
    }
}

impl TypeLabel for u8 {
    open spec fn label_spec() -> &'static str {
        "u8"
    }

    fn label() -> (name: &'static str) {
        "u8"
    }
}

impl<'inp> Parse<'inp> for u8 {
    open spec fn binary_size_spec() -> BinarySize {
        BinarySize { fixed_bytes: 1, ptrs: 0, is_dynamic: false }
    }

    fn binary_size() -> (s: BinarySize) {
        BinarySize::fixed(1)
    }

    open spec fn decode(bytes: Seq<u8>, wide: bool) -> Result<(u8, Seq<u8>), Error> {
        if bytes.len() < 1 {
            Err(Error::DataTooShort { ty: Some("u8"), required: 1, actual: bytes.len() as usize })
        } else {
            Ok((bytes[0], bytes.skip(1)))
        }
    }

    proof fn lemma_decode_leaves_tail(bytes: Seq<u8>, wide: bool) {
        reveal(is_tail);
    }

    fn parse(input: &mut Input<'inp>) -> (r: Result<Self, Error>) {
        broadcast use vstd::layout::layout_of_primitives;

        let all = input.remaining;
        if all.len() < 1 {
            return Err(Error::to_short::<u8>(all.len()));
        }
        input.remaining = &all[1..all.len()];
        Ok(all[0])
    }
}

impl TypeLabel for u16 {
    open spec fn label_spec() -> &'static str {
        "u16"
    }

    fn label() -> (name: &'static str) {
        "u16"
    }
}

impl<'inp> Parse<'inp> for u16 {
    open spec fn binary_size_spec() -> BinarySize {
        BinarySize { fixed_bytes: 2, ptrs: 0, is_dynamic: false }
    }

    fn binary_size() -> (s: BinarySize) {
        BinarySize::fixed(2)
    }

    open spec fn decode(bytes: Seq<u8>, wide: bool) -> Result<(u16, Seq<u8>), Error> {
        if bytes.len() < 2 {
            Err(Error::DataTooShort { ty: Some("u16"), required: 2, actual: bytes.len() as usize })
        } else {
            Ok((le_u16(bytes) as u16, bytes.skip(2)))
        }
    }

    proof fn lemma_decode_leaves_tail(bytes: Seq<u8>, wide: bool) {
        reveal(is_tail);
    }

    fn parse(input: &mut Input<'inp>) -> (r: Result<Self, Error>) {
        broadcast use vstd::layout::layout_of_primitives;

        let all = input.remaining;
        if all.len() < 2 {
            return Err(Error::to_short::<u16>(all.len()));
        }
        input.remaining = &all[2..all.len()];
        Ok(read_u16(all, 0))
    }
}

impl TypeLabel for u32 {
    open spec fn label_spec() -> &'static str {
        "u32"
    }

    fn label() -> (name: &'static str) {
        "u32"
    }
}

impl<'inp> Parse<'inp> for u32 {
    open spec fn binary_size_spec() -> BinarySize {
        BinarySize { fixed_bytes: 4, ptrs: 0, is_dynamic: false }
    }

    fn binary_size() -> (s: BinarySize) {
        BinarySize::fixed(4)
    }

    open spec fn decode(bytes: Seq<u8>, wide: bool) -> Result<(u32, Seq<u8>), Error> {
        if bytes.len() < 4 {
            Err(Error::DataTooShort { ty: Some("u32"), required: 4, actual: bytes.len() as usize })
        } else {
            Ok((le_u32(bytes) as u32, bytes.skip(4)))
        }
    }

    proof fn lemma_decode_leaves_tail(bytes: Seq<u8>, wide: bool) {
        reveal(is_tail);
    }

    fn parse(input: &mut Input<'inp>) -> (r: Result<Self, Error>) {
        broadcast use vstd::layout::layout_of_primitives;

        let all = input.remaining;
        if all.len() < 4 {
            return Err(Error::to_short::<u32>(all.len()));
        }
        input.remaining = &all[4..all.len()];
        Ok(read_u32(all, 0))
    }
}

impl TypeLabel for u64 {
    open spec fn label_spec() -> &'static str {
        "u64"
    }

    fn label() -> (name: &'static str) {
        "u64"
    }
}

impl<'inp> Parse<'inp> for u64 {
    open spec fn binary_size_spec() -> BinarySize {
        BinarySize { fixed_bytes: 8, ptrs: 0, is_dynamic: false }
    }

    fn binary_size() -> (s: BinarySize) {
        BinarySize::fixed(8)
    }

    open spec fn decode(bytes: Seq<u8>, wide: bool) -> Result<(u64, Seq<u8>), Error> {
        if bytes.len() < 8 {
            Err(Error::DataTooShort { ty: Some("u64"), required: 8, actual: bytes.len() as usize })
        } else {
            Ok((le_u64(bytes) as u64, bytes.skip(8)))
        }
    }

    proof fn lemma_decode_leaves_tail(bytes: Seq<u8>, wide: bool) {
        reveal(is_tail);
    }

    fn parse(input: &mut Input<'inp>) -> (r: Result<Self, Error>) {
        broadcast use vstd::layout::layout_of_primitives;

        let all = input.remaining;
        if all.len() < 8 {
            return Err(Error::to_short::<u64>(all.len()));
        }
        input.remaining = &all[8..all.len()];
        Ok(read_u64(all, 0))
    }
}

impl TypeLabel for i8 {
    open spec fn label_spec() -> &'static str {
        "i8"
    }

    fn label() -> (name: &'static str) {
        "i8"
    }
}

impl<'inp> Parse<'inp> for i8 {
    open spec fn binary_size_spec() -> BinarySize {
        BinarySize { fixed_bytes: 1, ptrs: 0, is_dynamic: false }
    }

    fn binary_size() -> (s: BinarySize) {
        BinarySize::fixed(1)
    }

    open spec fn decode(bytes: Seq<u8>, wide: bool) -> Result<(i8, Seq<u8>), Error> {
        if bytes.len() < 1 {
            Err(Error::DataTooShort { ty: Some("i8"), required: 1, actual: bytes.len() as usize })
        } else {
            Ok((twos_complement(bytes[0] as int, 0x80) as i8, bytes.skip(1)))
        }
    }

    proof fn lemma_decode_leaves_tail(bytes: Seq<u8>, wide: bool) {
        reveal(is_tail);
    }

    fn parse(input: &mut Input<'inp>) -> (r: Result<Self, Error>) {
        broadcast use vstd::layout::layout_of_primitives;

        let all = input.remaining;
        if all.len() < 1 {
            return Err(Error::to_short::<i8>(all.len()));
        }
        input.remaining = &all[1..all.len()];
        let u: u8 = all[0];
        if u < 0x80 {
            Ok(u as i8)
        } else {
            Ok((u - 0x80) as i8 + i8::MIN)
        }
    }
}

impl TypeLabel for i16 {
    open spec fn label_spec() -> &'static str {
        "i16"
    }

    fn label() -> (name: &'static str) {
        "i16"
    }
}

impl<'inp> Parse<'inp> for i16 {
    open spec fn binary_size_spec() -> BinarySize {
        BinarySize { fixed_bytes: 2, ptrs: 0, is_dynamic: false }
    }

    fn binary_size() -> (s: BinarySize) {
        BinarySize::fixed(2)
    }

    open spec fn decode(bytes: Seq<u8>, wide: bool) -> Result<(i16, Seq<u8>), Error> {
        if bytes.len() < 2 {
            Err(Error::DataTooShort { ty: Some("i16"), required: 2, actual: bytes.len() as usize })
        } else {
            Ok((twos_complement(le_u16(bytes), 0x8000) as i16, bytes.skip(2)))
        }
    }

    proof fn lemma_decode_leaves_tail(bytes: Seq<u8>, wide: bool) {
        reveal(is_tail);
    }

    fn parse(input: &mut Input<'inp>) -> (r: Result<Self, Error>) {
        broadcast use vstd::layout::layout_of_primitives;

        let all = input.remaining;
        if all.len() < 2 {
            return Err(Error::to_short::<i16>(all.len()));
        }
        input.remaining = &all[2..all.len()];
        let u: u16 = read_u16(all, 0);
        if u < 0x8000 {
            Ok(u as i16)
        } else {
            Ok((u - 0x8000) as i16 + i16::MIN)
        }
    }
}

impl TypeLabel for i32 {
    open spec fn label_spec() -> &'static str {
        "i32"
    }

    fn label() -> (name: &'static str) {
        "i32"
    }
}

impl<'inp> Parse<'inp> for i32 {
    open spec fn binary_size_spec() -> BinarySize {
        BinarySize { fixed_bytes: 4, ptrs: 0, is_dynamic: false }
    }

    fn binary_size() -> (s: BinarySize) {
        BinarySize::fixed(4)
    }

    open spec fn decode(bytes: Seq<u8>, wide: bool) -> Result<(i32, Seq<u8>), Error> {
        if bytes.len() < 4 {
            Err(Error::DataTooShort { ty: Some("i32"), required: 4, actual: bytes.len() as usize })
        } else {
            Ok((twos_complement(le_u32(bytes), 0x8000_0000) as i32, bytes.skip(4)))
        }
    }

    proof fn lemma_decode_leaves_tail(bytes: Seq<u8>, wide: bool) {
        reveal(is_tail);
    }

    fn parse(input: &mut Input<'inp>) -> (r: Result<Self, Error>) {
        broadcast use vstd::layout::layout_of_primitives;

        let all = input.remaining;
        if all.len() < 4 {
            return Err(Error::to_short::<i32>(all.len()));
        }
        input.remaining = &all[4..all.len()];
        let u: u32 = read_u32(all, 0);
        if u < 0x8000_0000 {
            Ok(u as i32)
        } else {
            Ok((u - 0x8000_0000) as i32 + i32::MIN)
        }
    }
}

impl TypeLabel for i64 {
    open spec fn label_spec() -> &'static str {
        "i64"
    }

    fn label() -> (name: &'static str) {
        "i64"
    }
}

impl<'inp> Parse<'inp> for i64 {
    open spec fn binary_size_spec() -> BinarySize {
        BinarySize { fixed_bytes: 8, ptrs: 0, is_dynamic: false }
    }

    fn binary_size() -> (s: BinarySize) {
        BinarySize::fixed(8)
    }

    open spec fn decode(bytes: Seq<u8>, wide: bool) -> Result<(i64, Seq<u8>), Error> {
        if bytes.len() < 8 {
            Err(Error::DataTooShort { ty: Some("i64"), required: 8, actual: bytes.len() as usize })
        } else {
            Ok((twos_complement(le_u64(bytes), 0x8000_0000_0000_0000) as i64, bytes.skip(8)))
        }
    }

    proof fn lemma_decode_leaves_tail(bytes: Seq<u8>, wide: bool) {
        reveal(is_tail);
    }

    fn parse(input: &mut Input<'inp>) -> (r: Result<Self, Error>) {
        broadcast use vstd::layout::layout_of_primitives;

        let all = input.remaining;
        if all.len() < 8 {
            return Err(Error::to_short::<i64>(all.len()));
        }
        input.remaining = &all[8..all.len()];
        let u: u64 = read_u64(all, 0);
        if u < 0x8000_0000_0000_0000 {
            Ok(u as i64)
        } else {
            Ok((u - 0x8000_0000_0000_0000) as i64 + i64::MIN)
        }
    }
}

/// A single-precision float, kept as the 32 bits of its encoding.
#[derive(Debug, Clone, Copy, PartialEq, Eq, Structural)]
pub struct F32Bits(pub u32);

impl DeepView for F32Bits {
    type V = u32;

    open spec fn deep_view(&self) -> u32 {
        self.0
    }
}

impl TypeLabel for F32Bits {
    open spec fn label_spec() -> &'static str {
        "f32"
    }

    fn label() -> (name: &'static str) {
        "f32"
    }
}

impl<'inp> Parse<'inp> for F32Bits {
    open spec fn binary_size_spec() -> BinarySize {
        BinarySize { fixed_bytes: 4, ptrs: 0, is_dynamic: false }
    }

    fn binary_size() -> (s: BinarySize) {
        BinarySize::fixed(4)
    }

    open spec fn decode(bytes: Seq<u8>, wide: bool) -> Result<(u32, Seq<u8>), Error> {
        if bytes.len() < 4 {
            Err(Error::DataTooShort { ty: Some("f32"), required: 4, actual: bytes.len() as usize })
        } else {
            Ok((le_u32(bytes) as u32, bytes.skip(4)))
        }
    }

    proof fn lemma_decode_leaves_tail(bytes: Seq<u8>, wide: bool) {
        reveal(is_tail);
    }

    fn parse(input: &mut Input<'inp>) -> (r: Result<Self, Error>) {
        let all = input.remaining;
        if all.len() < 4 {
            return Err(Error::DataTooShort { ty: Some("f32"), required: 4, actual: all.len() });
        }
        input.remaining = &all[4..all.len()];
        Ok(F32Bits(read_u32(all, 0)))
    }
}

/// A double-precision float, kept as the 64 bits of its encoding.
#[derive(Debug, Clone, Copy, PartialEq, Eq, Structural)]
pub struct F64Bits(pub u64);

impl DeepView for F64Bits {
    type V = u64;

    open spec fn deep_view(&self) -> u64 {
        self.0
    }
}

impl TypeLabel for F64Bits {
    open spec fn label_spec() -> &'static str {
        "f64"
    }

    fn label() -> (name: &'static str) {
        "f64"
    }
}

impl<'inp> Parse<'inp> for F64Bits {
    open spec fn binary_size_spec() -> BinarySize {
        BinarySize { fixed_bytes: 8, ptrs: 0, is_dynamic: false }
    }

    fn binary_size() -> (s: BinarySize) {
        BinarySize::fixed(8)
    }

    open spec fn decode(bytes: Seq<u8>, wide: bool) -> Result<(u64, Seq<u8>), Error> {
        if bytes.len() < 8 {
            Err(Error::DataTooShort { ty: Some("f64"), required: 8, actual: bytes.len() as usize })
        } else {
            Ok((le_u64(bytes) as u64, bytes.skip(8)))
        }
    }

    proof fn lemma_decode_leaves_tail(bytes: Seq<u8>, wide: bool) {
        reveal(is_tail);
    }

    fn parse(input: &mut Input<'inp>) -> (r: Result<Self, Error>) {
        let all = input.remaining;
        if all.len() < 8 {
            return Err(Error::DataTooShort { ty: Some("f64"), required: 8, actual: all.len() });
        }
        input.remaining = &all[8..all.len()];
        Ok(F64Bits(read_u64(all, 0)))
    }
}

} // verus!
