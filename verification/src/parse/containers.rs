//! The containers that a record reaches through a self-relative pointer: a
//! nullable reference, an array with its length, and a window of bytes.
//!
//! What a pointer leads to is decoded from a second view of the input, so
//! the fields that follow the pointer are read from where the pointer's own
//! field ends.

use vstd::prelude::*;
use crate::parse::{
    decode_offset, is_tail, pointer_width, BinarySize, Error, Input, Parse, TypeLabel,
};

verus! {

/// The error for a target that lies `offset` bytes on where only `actual`
/// bytes are left.
pub open spec fn beyond_end(offset: usize, actual: nat) -> Error {
    Error::DataTooShort { ty: None, required: offset, actual: actual as usize }
}

/// `count` values of `T` one after another at the front of `bytes`, after
/// the `found` already read, and the bytes that follow them.
pub open spec fn decode_items<'inp, T: Parse<'inp>>(
    bytes: Seq<u8>,
    wide: bool,
    count: nat,
    found: Seq<T::V>,
) -> Result<(Seq<T::V>, Seq<u8>), Error>
    decreases count,
{
    if count == 0 {
        Ok((found, bytes))
    } else {
        match T::decode(bytes, wide) {
            Err(e) => Err(e),
            Ok((value, rest)) => decode_items::<T>(rest, wide, (count - 1) as nat, found.push(value)),
        }
    }
}

/// The head of an array: its length, the distance from the end of the head
/// to the first element, and the bytes after the head.
pub open spec fn decode_array_head(bytes: Seq<u8>, wide: bool) -> Result<
    (u32, usize, Seq<u8>),
    Error,
> {
    match <u32 as Parse>::decode(bytes, wide) {
        Err(e) => Err(e),
        Ok((length, after_length)) => match decode_offset(after_length, wide) {
            Err(e) => Err(e),
            Ok((offset, rest)) => Ok((length, offset, rest)),
        },
    }
}

/// What follows the head of an array is a tail of the bytes that the head
/// was read from.
pub proof fn lemma_head_leaves_tail(bytes: Seq<u8>, wide: bool)
    ensures
        decode_array_head(bytes, wide) is Ok ==> is_tail(
            decode_array_head(bytes, wide)->Ok_0.2,
            bytes,
        ),
{
    reveal(is_tail);
    if decode_array_head(bytes, wide) is Ok {
        assert(bytes.skip(4).skip(pointer_width(wide)) =~= bytes.skip(4 + pointer_width(wide)));
    }
}

impl<T> TypeLabel for Option<T> {
    open spec fn label_spec() -> &'static str {
        "Option"
    }

    fn label() -> (name: &'static str) {
        "Option"
    }
}

impl<'inp, T: Parse<'inp>> Parse<'inp> for Option<T> {
    open spec fn binary_size_spec() -> BinarySize {
        BinarySize { fixed_bytes: 0, ptrs: 1, is_dynamic: false }
    }

    fn binary_size() -> (s: BinarySize) {
        BinarySize::ptrs(1)
    }

    /// A pointer that resolves to distance zero stands for no value; any
    /// other leads to the value, which is decoded without moving the input
    /// beyond the pointer.
    open spec fn decode(bytes: Seq<u8>, wide: bool) -> Result<(Option<T::V>, Seq<u8>), Error> {
        match decode_offset(bytes, wide) {
            Err(e) => Err(e),
            Ok((offset, rest)) => if offset == 0 {
                Ok((None, rest))
            } else if offset > rest.len() {
                Err(beyond_end(offset, rest.len()))
            } else {
                match T::decode(rest.skip(offset as int), wide) {
                    Err(e) => Err(e),
                    Ok((value, _)) => Ok((Some(value), rest)),
                }
            },
        }
    }

    proof fn lemma_decode_leaves_tail(bytes: Seq<u8>, wide: bool) {
        reveal(is_tail);
    }

    fn parse(input: &mut Input<'inp>) -> (r: Result<Self, Error>) {
        let offset = input.eat_offset()?;
        if offset == 0 {
            Ok(None)
        } else {
            let mut target = input.clone_with_offset(offset)?;
            let value = T::parse(&mut target)?;
            Ok(Some(value))
        }
    }
}

impl<T> TypeLabel for Vec<T> {
    open spec fn label_spec() -> &'static str {
        "Vec"
    }

    fn label() -> (name: &'static str) {
        "Vec"
    }
}

impl<'inp, T: Parse<'inp>> Parse<'inp> for Vec<T> {
    open spec fn binary_size_spec() -> BinarySize {
        BinarySize { fixed_bytes: 4, ptrs: 1, is_dynamic: false }
    }

    fn binary_size() -> (s: BinarySize) {
        BinarySize { fixed_bytes: 4, ptrs: 1, is_dynamic: false }
    }

    /// A length and a pointer; a length of zero stands for the empty array
    /// whatever the pointer, any other for that many elements one after
    /// another at the pointer's target.
    open spec fn decode(bytes: Seq<u8>, wide: bool) -> Result<(Seq<T::V>, Seq<u8>), Error> {
        match decode_array_head(bytes, wide) {
            Err(e) => Err(e),
            Ok((length, offset, rest)) => if length == 0 {
                Ok((Seq::empty(), rest))
            } else if offset > rest.len() {
                Err(beyond_end(offset, rest.len()))
            } else {
                match decode_items::<T>(rest.skip(offset as int), wide, length as nat, Seq::empty()) {
                    Err(e) => Err(e),
                    Ok((items, _)) => Ok((items, rest)),
                }
            },
        }
    }

    proof fn lemma_decode_leaves_tail(bytes: Seq<u8>, wide: bool) {
        lemma_head_leaves_tail(bytes, wide);
    }

    fn parse(input: &mut Input<'inp>) -> (r: Result<Self, Error>) {
        let length = u32::parse(input)?;
        let offset = input.eat_offset()?;
        if length == 0 {
            let items: Vec<T> = Vec::new();
            assert(items.deep_view() =~= Seq::empty());
            return Ok(items);
        }
        let mut target = input.clone_with_offset(offset)?;
        parse_items::<T>(&mut target, length)
    }
}

/// Decodes `count` values of `T` one after another.
pub fn parse_items<'inp, T: Parse<'inp>>(input: &mut Input<'inp>, count: u32) -> (r: Result<
    Vec<T>,
    Error,
>)
    ensures
        final(input).is_64_bit == old(input).is_64_bit,
        match decode_items::<T>(
            old(input).remaining@,
            old(input).is_64_bit,
            count as nat,
            Seq::empty(),
        ) {
            Ok((items, rest)) => r is Ok && r->Ok_0.deep_view() == items && final(input).remaining@
                == rest,
            Err(e) => r is Err && r->Err_0 == e,
        },
{
    let mut items: Vec<T> = Vec::new();
    assert(items.deep_view() =~= Seq::empty());
    let mut left = count;
    while left > 0
        invariant
            input.is_64_bit == old(input).is_64_bit,
            decode_items::<T>(
                old(input).remaining@,
                old(input).is_64_bit,
                count as nat,
                Seq::empty(),
            ) == decode_items::<T>(
                input.remaining@,
                input.is_64_bit,
                left as nat,
                items.deep_view(),
            ),
        decreases left,
    {
        let ghost before = items.deep_view();
        let item = T::parse(input)?;
        items.push(item);
        left -= 1;
        assert(items.deep_view() =~= before.push(item.deep_view()));
    }
    Ok(items)
}

impl<'a> TypeLabel for &'a [u8] {
    open spec fn label_spec() -> &'static str {
        "&[u8]"
    }

    fn label() -> (name: &'static str) {
        "&[u8]"
    }
}

impl<'inp> Parse<'inp> for &'inp [u8] {
    open spec fn binary_size_spec() -> BinarySize {
        BinarySize { fixed_bytes: 4, ptrs: 1, is_dynamic: false }
    }

    fn binary_size() -> (s: BinarySize) {
        BinarySize { fixed_bytes: 4, ptrs: 1, is_dynamic: false }
    }

    /// A length and a pointer; the value is the window of that length at the
    /// pointer's target, a part of the input itself.
    open spec fn decode(bytes: Seq<u8>, wide: bool) -> Result<(Seq<u8>, Seq<u8>), Error> {
        match decode_array_head(bytes, wide) {
            Err(e) => Err(e),
            Ok((length, offset, rest)) => if length == 0 {
                Ok((Seq::empty(), rest))
            } else if rest.len() < offset + length {
                Err(
                    Error::DataTooShort {
                        ty: Some("&[u8]"),
                        required: length as usize,
                        actual: rest.len() as usize,
                    },
                )
            } else {
                Ok((rest.subrange(offset as int, offset + length), rest))
            },
        }
    }

    proof fn lemma_decode_leaves_tail(bytes: Seq<u8>, wide: bool) {
        lemma_head_leaves_tail(bytes, wide);
    }

    fn parse(input: &mut Input<'inp>) -> (r: Result<Self, Error>) {
        let length = u32::parse(input)? as usize;
        let offset = input.eat_offset()?;
        let all = input.remaining;
        if length == 0 {
            let window = &all[0..0];
            assert(window@ =~= Seq::<u8>::empty());
            assert(window.deep_view() =~= Seq::<u8>::empty());
            Ok(window)
        } else if offset > all.len() || length > all.len() - offset {
            Err(Error::DataTooShort { ty: Some("&[u8]"), required: length, actual: all.len() })
        } else {
            let window = &all[offset..offset + length];
            assert(window.deep_view() =~= all@.subrange(offset as int, offset + length));
            Ok(window)
        }
    }
}

/// A byte window that is decoded is a part of the input: it holds the bytes
/// of the input from the pointer's target on, and nothing else.
pub proof fn lemma_byte_window_is_part_of_input(bytes: Seq<u8>, wide: bool)
    requires
        <&[u8] as Parse>::decode(bytes, wide) is Ok,
    ensures
        ({
            let window = <&[u8] as Parse>::decode(bytes, wide)->Ok_0.0;
            let head = 4 + pointer_width(wide);
            let start = head + decode_array_head(bytes, wide)->Ok_0.1;
            &&& decode_array_head(bytes, wide) is Ok
            &&& window.len() == decode_array_head(bytes, wide)->Ok_0.0
            &&& window.len() > 0 ==> start + window.len() <= bytes.len() && window
                == bytes.subrange(start, start + window.len())
            &&& forall|i: int|
                0 <= i < window.len() ==> window[i] == bytes[start + i]
        }),
{
    let (length, offset, rest) = decode_array_head(bytes, wide)->Ok_0;
    let head = 4 + pointer_width(wide);
    assert(rest == bytes.skip(4).skip(pointer_width(wide)));
    if length > 0 {
        assert(rest.subrange(offset as int, offset + length) =~= bytes.subrange(
            head + offset,
            head + offset + length,
        ));
    }
}

} // verus!
