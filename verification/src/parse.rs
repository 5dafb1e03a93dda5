//! The decode framework: a byte cursor with a pointer width, the contract a
//! type meets to decode itself, and the containers that are reached through
//! self-relative pointers.

use vstd::prelude::*;
use core::marker::PhantomData;
use crate::bytes::{all_zero, is_zero_prefix, le_u32, le_u64};
use crate::parse::containers::{beyond_end, decode_array_head};
use crate::pf::{
    after_chunk, chunk_header_of, chunk_payload, ChunkHeader, Magic, CHUNK_HEADER_SIZE,
};

pub mod containers;
pub mod ints;

verus! {

/// Why a decode failed.
#[derive(Debug, Clone, Copy, PartialEq, Eq)]
#[allow(inconsistent_fields)]
pub enum Error {
    /// A tag is not the one that was asked for.
    InvalidFileType { ty: &'static str, expected: u32, actual: u32 },
    /// The input uses an encoding that this decoder does not handle.
    NotSupported,
    /// Fewer bytes are left than the value needs.
    DataTooShort { ty: Option<&'static str>, required: usize, actual: usize },
    /// A text runs to the end of the input without a zero unit.
    CannotFindNullTerminator,
    /// The record kind has no layout for the version.
    UnknownVersion { ty: &'static str, actual: u16 },
    /// No record kind goes by the magic.
    UnknownMagic { ty: &'static str, actual: u32 },
    /// No record kind goes by the magic and version together.
    UnknownMagicOrVersion { ty: &'static str, actual_magic: u32, actual_version: u32 },
}

/// A type that names itself in errors.
pub trait TypeLabel {
    /// The name of the type.
    spec fn label_spec() -> &'static str;

    /// The name of the type.
    fn label() -> (name: &'static str)
        ensures
            name == Self::label_spec(),
    ;
}

impl Error {
    /// The error for `actual` bytes where a `T` needs as many as it takes in
    /// memory.
    pub open spec fn short_read<T: TypeLabel>(actual: usize) -> Error {
        Error::DataTooShort {
            ty: Some(T::label_spec()),
            required: vstd::layout::size_of::<T>() as usize,
            actual,
        }
    }

    /// The error for `actual` bytes where a `T` needs as many as it takes in
    /// memory.
    pub fn to_short<T: TypeLabel>(actual: usize) -> (e: Self)
        ensures
            e == Error::short_read::<T>(actual),
    {
        Error::DataTooShort { ty: Some(T::label()), required: core::mem::size_of::<T>(), actual }
    }

    /// The error for the tag `actual` where the tag of `T` was asked for.
    pub fn wrong_magic<T: Magic>(actual: u32) -> (e: Self)
        ensures
            e == (Error::InvalidFileType { ty: T::label_spec(), expected: T::MAGIC, actual }),
    {
        Error::InvalidFileType { ty: T::label(), expected: T::MAGIC, actual }
    }
}

/// How many bytes the encoding of a type takes: a fixed part, a number of
/// pointers whose width the container decides, or no fixed size at all.
#[derive(Debug, Clone, Copy, PartialEq, Eq, Structural)]
pub struct BinarySize {
    pub fixed_bytes: usize,
    pub ptrs: usize,
    pub is_dynamic: bool,
}

impl BinarySize {
    /// The size in bytes, with pointers of either width, is a `usize`.
    pub open spec fn fits(self) -> bool {
        self.fixed_bytes + 8 * self.ptrs <= usize::MAX
    }

    /// The size in bytes for a pointer width; none for a dynamic size.
    pub open spec fn footprint(self, wide: bool) -> Option<int> {
        if self.is_dynamic {
            None
        } else if wide {
            Some(self.fixed_bytes + 8 * self.ptrs)
        } else {
            Some(self.fixed_bytes + 4 * self.ptrs)
        }
    }

    /// The size of both together.
    pub open spec fn plus(self, rhs: BinarySize) -> BinarySize {
        BinarySize {
            fixed_bytes: (self.fixed_bytes + rhs.fixed_bytes) as usize,
            ptrs: (self.ptrs + rhs.ptrs) as usize,
            is_dynamic: self.is_dynamic || rhs.is_dynamic,
        }
    }

    /// A size of `fixed_bytes` bytes.
    pub fn fixed(fixed_bytes: usize) -> (s: Self)
        ensures
            s == (BinarySize { fixed_bytes, ptrs: 0, is_dynamic: false }),
    {
        BinarySize { fixed_bytes, ptrs: 0, is_dynamic: false }
    }

    /// The size of `ptrs` pointers.
    pub fn ptrs(ptrs: usize) -> (s: Self)
        ensures
            s == (BinarySize { fixed_bytes: 0, ptrs, is_dynamic: false }),
    {
        BinarySize { fixed_bytes: 0, ptrs, is_dynamic: false }
    }

    /// A size that is not fixed.
    pub fn dynamic() -> (s: Self)
        ensures
            s == (BinarySize { fixed_bytes: 0, ptrs: 0, is_dynamic: true }),
    {
        BinarySize { fixed_bytes: 0, ptrs: 0, is_dynamic: true }
    }

    /// The size of both together.
    pub fn add(&self, rhs: &Self) -> (s: Self)
        requires
            self.fixed_bytes + rhs.fixed_bytes <= usize::MAX,
            self.ptrs + rhs.ptrs <= usize::MAX,
        ensures
            s == self.plus(*rhs),
    {
        BinarySize {
            fixed_bytes: self.fixed_bytes + rhs.fixed_bytes,
            ptrs: self.ptrs + rhs.ptrs,
            is_dynamic: self.is_dynamic || rhs.is_dynamic,
        }
    }

    /// The size in bytes for a pointer width; none for a dynamic size.
    pub fn actual_size(&self, uses_64_bit_ptrs: bool) -> (size: Option<usize>)
        requires
            !self.is_dynamic ==> self.fits(),
        ensures
            match self.footprint(uses_64_bit_ptrs) {
                Some(n) => size == Some(n as usize),
                None => size is None,
            },
    {
        if self.is_dynamic {
            return None;
        }
        let width: usize = if uses_64_bit_ptrs {
            8
        } else {
            4
        };
        Some(self.fixed_bytes + self.ptrs * width)
    }
}

/// A view over the input that shrinks from the front as it is read, with the
/// width of the pointers in it.
#[derive(Debug, Clone, Copy)]
pub struct Input<'inp> {
    pub remaining: &'inp [u8],
    pub is_64_bit: bool,
}

/// The width in bytes of a pointer field.
pub open spec fn pointer_width(wide: bool) -> int {
    if wide {
        8
    } else {
        4
    }
}

/// The number stored in the pointer field at the front of `bytes`: the
/// distance from the start of the field to its target, zero for none.
pub open spec fn raw_pointer(bytes: Seq<u8>, wide: bool) -> int {
    if wide {
        le_u64(bytes)
    } else {
        le_u32(bytes)
    }
}

/// The distance from the end of a pointer field to its target, for a stored
/// value `raw`: zero for the null pointer, else `raw` less the width of the
/// field. A target inside the field, or beyond what a `usize` can index, is
/// not supported.
pub open spec fn resolve_pointer(raw: int, wide: bool) -> Result<usize, Error> {
    if raw == 0 {
        Ok(0)
    } else if raw < pointer_width(wide) || raw - pointer_width(wide) > usize::MAX {
        Err(Error::NotSupported)
    } else {
        Ok((raw - pointer_width(wide)) as usize)
    }
}

/// The error for a pointer field that is cut short.
pub open spec fn short_pointer(actual: usize, wide: bool) -> Error {
    if wide {
        Error::DataTooShort { ty: Some("u64"), required: 8, actual }
    } else {
        Error::DataTooShort { ty: Some("u32"), required: 4, actual }
    }
}

/// What reading the pointer field at the front of `bytes` gives: the
/// distance from the end of the field to the target, and the bytes after
/// the field.
pub open spec fn decode_offset(bytes: Seq<u8>, wide: bool) -> Result<(usize, Seq<u8>), Error> {
    if bytes.len() < pointer_width(wide) {
        Err(short_pointer(bytes.len() as usize, wide))
    } else {
        match resolve_pointer(raw_pointer(bytes, wide), wide) {
            Err(e) => Err(e),
            Ok(offset) => Ok((offset, bytes.skip(pointer_width(wide)))),
        }
    }
}

/// Self-relative pointers resolve alike at both widths: a stored distance
/// `raw`, counted from the start of the field, leads to the byte `raw` of
/// the input that starts at the field; and what lies behind the field has
/// no part in the result.
pub proof fn lemma_pointer_resolution(bytes: Seq<u8>, tail: Seq<u8>, wide: bool)
    requires
        bytes.len() >= pointer_width(wide),
        raw_pointer(bytes, wide) >= pointer_width(wide),
        raw_pointer(bytes, wide) - pointer_width(wide) <= usize::MAX,
    ensures
        decode_offset(bytes, wide) is Ok,
        decode_offset(bytes, wide)->Ok_0.0 == raw_pointer(bytes, wide) - pointer_width(wide),
        decode_offset(bytes, wide)->Ok_0.1 == bytes.skip(pointer_width(wide)),
        raw_pointer(bytes, wide) <= bytes.len() ==> decode_offset(bytes, wide)->Ok_0.1.skip(
            decode_offset(bytes, wide)->Ok_0.0 as int,
        ) == bytes.skip(raw_pointer(bytes, wide)),
        decode_offset(bytes + tail, wide) is Ok,
        decode_offset(bytes + tail, wide)->Ok_0.0 == decode_offset(bytes, wide)->Ok_0.0,
{
    let w = pointer_width(wide);
    let raw = raw_pointer(bytes, wide);
    assert(raw_pointer(bytes + tail, wide) == raw);
    if raw <= bytes.len() {
        assert(bytes.skip(w).skip(raw - w) =~= bytes.skip(raw));
    }
}

/// `rest` is what is left of `whole` once bytes are taken from its front.
#[verifier::opaque]
pub open spec fn is_tail(rest: Seq<u8>, whole: Seq<u8>) -> bool {
    rest.len() <= whole.len() && rest == whole.skip(whole.len() - rest.len())
}

/// What is left of a tail is left of the whole.
pub proof fn lemma_tail_of_tail(a: Seq<u8>, b: Seq<u8>, c: Seq<u8>)
    requires
        is_tail(a, b),
        is_tail(b, c),
    ensures
        is_tail(a, c),
{
    reveal(is_tail);
    assert(c.skip(c.len() - b.len()).skip(b.len() - a.len()) =~= c.skip(c.len() - a.len()));
}

/// Skipping bytes leaves a tail.
pub proof fn lemma_skip_is_tail(whole: Seq<u8>, n: int)
    requires
        0 <= n <= whole.len(),
    ensures
        is_tail(whole.skip(n), whole),
{
    reveal(is_tail);
}

/// A type that decodes itself from the front of an [`Input`].
pub trait Parse<'inp>: Sized + DeepView + TypeLabel {
    /// How many bytes the encoding takes.
    spec fn binary_size_spec() -> BinarySize;

    /// How many bytes the encoding takes.
    fn binary_size() -> (s: BinarySize)
        ensures
            s == Self::binary_size_spec(),
            s.fits(),
    ;

    /// The value at the front of `bytes` and the bytes that follow it, for
    /// pointers that are 8 bytes wide if `wide` and 4 bytes if not.
    spec fn decode(bytes: Seq<u8>, wide: bool) -> Result<(Self::V, Seq<u8>), Error>;

    /// The cursor only shrinks from the front: what follows a decoded value
    /// is a tail of the bytes that the value was decoded from.
    proof fn lemma_decode_leaves_tail(bytes: Seq<u8>, wide: bool)
        ensures
            Self::decode(bytes, wide) is Ok ==> is_tail(Self::decode(bytes, wide)->Ok_0.1, bytes),
    ;

    /// Decodes a value from the front of the input and moves the input past
    /// it.
    fn parse(input: &mut Input<'inp>) -> (r: Result<Self, Error>)
        ensures
            final(input).is_64_bit == old(input).is_64_bit,
            match Self::decode(old(input).remaining@, old(input).is_64_bit) {
                Ok((value, rest)) => r is Ok && r->Ok_0.deep_view() == value && final(input).remaining@ == rest,
                Err(e) => r is Err && r->Err_0 == e,
            },
    ;
}

impl<'inp> Input<'inp> {
    /// A second view of the same input that starts `offset` bytes on.
    pub fn clone_with_offset(&self, offset: usize) -> (r: Result<Self, Error>)
        ensures
            offset > self.remaining@.len() ==> r is Err && r->Err_0 == (Error::DataTooShort {
                ty: None,
                required: offset,
                actual: self.remaining@.len() as usize,
            }),
            offset <= self.remaining@.len() ==> r is Ok && r->Ok_0.remaining@
                == self.remaining@.skip(offset as int) && r->Ok_0.is_64_bit == self.is_64_bit,
    {
        let all = self.remaining;
        if offset > all.len() {
            Err(Error::DataTooShort { ty: None, required: offset, actual: all.len() })
        } else {
            Ok(Input { remaining: &all[offset..all.len()], is_64_bit: self.is_64_bit })
        }
    }

    /// Reads a self-relative pointer and gives the distance from the end of
    /// its field to its target; zero for the null pointer.
    pub fn eat_offset(&mut self) -> (r: Result<usize, Error>)
        ensures
            final(self).is_64_bit == old(self).is_64_bit,
            match decode_offset(old(self).remaining@, old(self).is_64_bit) {
                Ok((offset, rest)) => r is Ok && r->Ok_0 == offset && final(self).remaining@
                    == rest,
                Err(e) => r is Err && r->Err_0 == e,
            },
    {
        if self.is_64_bit {
            let v = u64::parse(self)?;
            if v == 0 {
                Ok(0)
            } else if v < 8 || v - 8 > usize::MAX as u64 {
                Err(Error::NotSupported)
            } else {
                Ok((v - 8) as usize)
            }
        } else {
            let v = u32::parse(self)?;
            if v == 0 {
                Ok(0)
            } else if v < 4 {
                Err(Error::NotSupported)
            } else {
                Ok((v - 4) as usize)
            }
        }
    }
}

/// `count` values of `T` at most, one after another at the front of `bytes`
/// and after the `found` already read: where `T` has a fixed size, the
/// values end before the first whose bytes are all zero.
pub open spec fn decode_until_zero<'inp, T: Parse<'inp>>(
    bytes: Seq<u8>,
    wide: bool,
    count: nat,
    found: Seq<T::V>,
) -> Result<(Seq<T::V>, Seq<u8>), Error>
    decreases count,
{
    let size = T::binary_size_spec().footprint(wide);
    if count == 0 {
        Ok((found, bytes))
    } else if size is Some && bytes.len() < size->Some_0 {
        Err(Error::short_read::<T>(bytes.len() as usize))
    } else if size is Some && all_zero(bytes.take(size->Some_0)) {
        Ok((found, bytes))
    } else {
        match T::decode(bytes, wide) {
            Err(e) => Err(e),
            Ok((value, rest)) => decode_until_zero::<T>(
                rest,
                wide,
                (count - 1) as nat,
                found.push(value),
            ),
        }
    }
}

/// An array that may end early: a length and a pointer as for any array,
/// but the elements at the target end before the first that is all zero.
pub open spec fn decode_sentinel_array<'inp, T: Parse<'inp>>(bytes: Seq<u8>, wide: bool) -> Result<
    (Seq<T::V>, Seq<u8>),
    Error,
> {
    match decode_array_head(bytes, wide) {
        Err(e) => Err(e),
        Ok((length, offset, rest)) => if length == 0 {
            Ok((Seq::empty(), rest))
        } else if offset > rest.len() {
            Err(beyond_end(offset, rest.len()))
        } else {
            match decode_until_zero::<T>(rest.skip(offset as int), wide, length as nat, Seq::empty()) {
                Err(e) => Err(e),
                Ok((items, _)) => Ok((items, rest)),
            }
        },
    }
}

/// Where the next element has a fixed size and is all zero, no element is
/// decoded from there on.
pub proof fn lemma_sentinel_stops_at_zero<'inp, T: Parse<'inp>>(
    bytes: Seq<u8>,
    wide: bool,
    count: nat,
    found: Seq<T::V>,
)
    requires
        T::binary_size_spec().footprint(wide) is Some,
        bytes.len() >= T::binary_size_spec().footprint(wide)->Some_0,
        all_zero(bytes.take(T::binary_size_spec().footprint(wide)->Some_0)),
    ensures
        decode_until_zero::<T>(bytes, wide, count, found) == Ok::<(Seq<T::V>, Seq<u8>), Error>(
            (found, bytes),
        ),
{
}

/// No more than `count` elements are added to those already read.
pub proof fn lemma_sentinel_never_exceeds<'inp, T: Parse<'inp>>(
    bytes: Seq<u8>,
    wide: bool,
    count: nat,
    found: Seq<T::V>,
)
    requires
        decode_until_zero::<T>(bytes, wide, count, found) is Ok,
    ensures
        found.len() <= decode_until_zero::<T>(bytes, wide, count, found)->Ok_0.0.len()
            <= found.len() + count,
    decreases count,
{
    let size = T::binary_size_spec().footprint(wide);
    if count == 0 {
    } else if size is Some && bytes.len() < size->Some_0 {
    } else if size is Some && all_zero(bytes.take(size->Some_0)) {
    } else {
        match T::decode(bytes, wide) {
            Err(e) => {},
            Ok((value, rest)) => {
                lemma_sentinel_never_exceeds::<T>(
                    rest,
                    wide,
                    (count - 1) as nat,
                    found.push(value),
                );
            },
        }
    }
}

/// A sentinel-terminated array never holds more elements than its head
/// declares.
pub proof fn lemma_sentinel_array_bounded<'inp, T: Parse<'inp>>(bytes: Seq<u8>, wide: bool)
    requires
        decode_sentinel_array::<T>(bytes, wide) is Ok,
    ensures
        decode_sentinel_array::<T>(bytes, wide)->Ok_0.0.len() <= decode_array_head(
            bytes,
            wide,
        )->Ok_0.0,
{
    let (length, offset, rest) = decode_array_head(bytes, wide)->Ok_0;
    if length != 0 {
        lemma_sentinel_never_exceeds::<T>(rest.skip(offset as int), wide, length as nat, Seq::empty());
    }
}

/// Decodes `count` values of `T` at most, and stops before the first whose
/// bytes are all zero.
pub fn parse_until_zero<'inp, T: Parse<'inp>>(input: &mut Input<'inp>, count: u32) -> (r: Result<
    Vec<T>,
    Error,
>)
    ensures
        final(input).is_64_bit == old(input).is_64_bit,
        match decode_until_zero::<T>(
            old(input).remaining@,
            old(input).is_64_bit,
            count as nat,
            Seq::empty(),
        ) {
            Ok((items, rest)) => r is Ok && r->Ok_0.deep_view() == items && final(input).remaining@
                == rest,
            Err(e) => r is Err && r->Err_0 == e,
        },
{
    let mut items: Vec<T> = Vec::new();
    assert(items.deep_view() =~= Seq::empty());
    let size = T::binary_size().actual_size(input.is_64_bit);
    let mut left = count;
    while left > 0
        invariant
            input.is_64_bit == old(input).is_64_bit,
            match T::binary_size_spec().footprint(input.is_64_bit) {
                Some(n) => size == Some(n as usize) && n <= usize::MAX,
                None => size is None,
            },
            decode_until_zero::<T>(
                old(input).remaining@,
                old(input).is_64_bit,
                count as nat,
                Seq::empty(),
            ) == decode_until_zero::<T>(
                input.remaining@,
                input.is_64_bit,
                left as nat,
                items.deep_view(),
            ),
        ensures
            decode_until_zero::<T>(
                old(input).remaining@,
                old(input).is_64_bit,
                count as nat,
                Seq::empty(),
            ) == Ok::<(Seq<T::V>, Seq<u8>), Error>((items.deep_view(), input.remaining@)),
            input.is_64_bit == old(input).is_64_bit,
        decreases left,
    {
        let ghost before = items.deep_view();
        if let Some(el_size) = size {
            let all = input.remaining;
            if all.len() < el_size {
                return Err(Error::to_short::<T>(all.len()));
            }
            if is_zero_prefix(all, el_size) {
                break ;
            }
        }
        let item = T::parse(input)?;
        items.push(item);
        left -= 1;
        assert(items.deep_view() =~= before.push(item.deep_view()));
    }
    Ok(items)
}

/// Decodes an array that may end early: a length and a pointer, then at the
/// pointer's target as many elements as the length says, or fewer if an
/// element that is all zero comes first.
pub fn parse_null_terminated_vec<'inp, T: Parse<'inp>>(input: &mut Input<'inp>) -> (r: Result<
    Vec<T>,
    Error,
>)
    ensures
        final(input).is_64_bit == old(input).is_64_bit,
        match decode_sentinel_array::<T>(old(input).remaining@, old(input).is_64_bit) {
            Ok((items, rest)) => r is Ok && r->Ok_0.deep_view() == items && final(input).remaining@
                == rest,
            Err(e) => r is Err && r->Err_0 == e,
        },
{
    let length = u32::parse(input)?;
    let offset = input.eat_offset()?;
    if length == 0 {
        let items: Vec<T> = Vec::new();
        assert(items.deep_view() =~= Seq::empty());
        return Ok(items);
    }
    let mut target = input.clone_with_offset(offset)?;
    parse_until_zero::<T>(&mut target, length)
}

/// The place of `version` among the versions that have a layout.
pub open spec fn position_of(known: Seq<u16>, version: u16, from: int) -> Option<int>
    decreases known.len() - from,
{
    if from < 0 || from >= known.len() {
        None
    } else if known[from] == version {
        Some(from)
    } else {
        position_of(known, version, from + 1)
    }
}

/// Selects the layout for `version` among the `known` versions of the record
/// kind `ty`: the index of the first that matches, or the error that names
/// the version and the kind.
pub fn select_version(ty: &'static str, known: &[u16], version: u16) -> (r: Result<usize, Error>)
    ensures
        match position_of(known@, version, 0) {
            Some(i) => r is Ok && r->Ok_0 == i,
            None => r is Err && r->Err_0 == (Error::UnknownVersion { ty, actual: version }),
        },
        r is Ok <==> known@.contains(version),
        r is Ok ==> r->Ok_0 < known@.len() && known@[r->Ok_0 as int] == version,
{
    let mut i: usize = 0;
    while i < known.len()
        invariant
            i <= known@.len(),
            position_of(known@, version, 0) == position_of(known@, version, i as int),
            forall|j: int| 0 <= j < i ==> known@[j] != version,
        decreases known@.len() - i,
    {
        if known[i] == version {
            return Ok(i);
        }
        i += 1;
    }
    Err(Error::UnknownVersion { ty, actual: version })
}

/// A family of layouts of one record kind, told apart by a version.
pub trait ParseVersioned<'inp>: Sized {
    /// What any of the layouts decodes to.
    type Output: DeepView;

    /// The value that the layout for `version` finds at the front of
    /// `bytes`, and the bytes that follow it.
    spec fn decode_version(version: u16, bytes: Seq<u8>, wide: bool) -> Result<
        (<Self::Output as DeepView>::V, Seq<u8>),
        Error,
    >;

    /// Decodes a value by the layout for `version`.
    fn parse(version: u16, input: &mut Input<'inp>) -> (r: Result<Self::Output, Error>)
        ensures
            final(input).is_64_bit == old(input).is_64_bit,
            match Self::decode_version(version, old(input).remaining@, old(input).is_64_bit) {
                Ok((value, rest)) => r is Ok && r->Ok_0.deep_view() == value && final(input).remaining@ == rest,
                Err(e) => r is Err && r->Err_0 == e,
            },
    ;
}

/// A set of record kinds, told apart by a magic, each with its versions.
pub trait ParseMagicVariant<'inp>: Sized + DeepView {
    /// The value that the kind for `magic` finds at the front of `bytes` by
    /// its layout for `version`, and the bytes that follow it.
    spec fn decode_variant(magic: u32, version: u16, bytes: Seq<u8>, wide: bool) -> Result<
        (Self::V, Seq<u8>),
        Error,
    >;

    /// Decodes a value of the kind for `magic` by its layout for `version`.
    fn parse(magic: u32, version: u16, input: &mut Input<'inp>) -> (r: Result<Self, Error>)
        ensures
            final(input).is_64_bit == old(input).is_64_bit,
            match Self::decode_variant(
                magic,
                version,
                old(input).remaining@,
                old(input).is_64_bit,
            ) {
                Ok((value, rest)) => r is Ok && r->Ok_0.deep_view() == value && final(input).remaining@ == rest,
                Err(e) => r is Err && r->Err_0 == e,
            },
    ;
}

/// A set of record kinds whose chunks can be walked.
pub trait ChunkVariant<'inp>: Sized + ParseMagicVariant<'inp> {
    /// A walk over the chunks in `input`.
    fn parse_sequence(input: Input<'inp>) -> (chunks: ChunkIter<'inp, Self>)
        ensures
            chunks.input == input,
    ;
}

/// A walk over the chunks of a container. It is ready while the bytes left
/// hold a chunk header, and exhausted from then on.
pub struct ChunkIter<'inp, V: ParseMagicVariant<'inp>> {
    pub input: Input<'inp>,
    pub _p: PhantomData<V>,
}

impl<'inp, V: ParseMagicVariant<'inp>> ChunkIter<'inp, V> {
    /// The walk over the chunks in `input`.
    pub fn new(input: Input<'inp>) -> (chunks: Self)
        ensures
            chunks.input == input,
    {
        ChunkIter { input, _p: PhantomData }
    }

    /// The bytes left hold no further chunk header.
    pub open spec fn exhausted(&self) -> bool {
        self.input.remaining@.len() < CHUNK_HEADER_SIZE
    }

    /// Decodes the next chunk and moves on to the one after it, whether the
    /// decoding succeeded or not; `None` once the walk is exhausted.
    pub fn next(&mut self) -> (item: Option<Result<V, Error>>)
        ensures
            final(self).input.is_64_bit == old(self).input.is_64_bit,
            old(self).exhausted() ==> item is None && final(self).input.remaining@ == old(self).input.remaining@,
            !old(self).exhausted() ==> {
                let bytes = old(self).input.remaining@;
                let header = chunk_header_of(bytes);
                &&& item is Some
                &&& final(self).input.remaining@ == after_chunk(bytes)
                &&& match chunk_payload(bytes) {
                    Err(e) => item->Some_0 is Err && item->Some_0->Err_0 == e,
                    Ok(payload) => match V::decode_variant(
                        header.magic,
                        header.version,
                        payload,
                        old(self).input.is_64_bit,
                    ) {
                        Ok((value, _)) => item->Some_0 is Ok && item->Some_0->Ok_0.deep_view()
                            == value,
                        Err(e) => item->Some_0 is Err && item->Some_0->Err_0 == e,
                    },
                }
            },
    {
        let all = self.input.remaining;
        if all.len() < CHUNK_HEADER_SIZE {
            return None;
        }
        let header = ChunkHeader::read(all);
        let len = all.len() as u64;
        let next_offset = 8 + header.next_chunk_offset as u64;
        if next_offset <= len {
            self.input.remaining = &all[next_offset as usize..all.len()];
        } else {
            self.input.remaining = &all[all.len()..all.len()];
        }
        let start = header.chunk_header_size as u64;
        let end = start + header.descriptor_offset as u64;
        if end > len {
            let required = if end > usize::MAX as u64 {
                usize::MAX
            } else {
                end as usize
            };
            return Some(Err(Error::DataTooShort { ty: None, required, actual: all.len() }));
        }
        let mut chunk_input = Input {
            remaining: &all[start as usize..end as usize],
            is_64_bit: self.input.is_64_bit,
        };
        Some(V::parse(header.magic, header.version, &mut chunk_input))
    }
}

} // verus!
