//! What the records embedded in an image mean: field descriptors, field
//! lists, version tables and chunk descriptors, as functions of the image.
//!
//! Types nest by pointers that the image itself supplies, so every function
//! that follows such a pointer takes the number of levels it may still
//! descend and fails with [`Error::NestingTooDeep`] once none is left.

use vstd::prelude::*;
use crate::analyze::image::{rva_to_offset, text_at, ImageView};
use crate::analyze::reader::after;
use crate::analyze::Error;
use crate::bytes::{u16_at, u32_at, u64_at};
use crate::parse::{is_tail, lemma_skip_is_tail, lemma_tail_of_tail};
use crate::structure::{
    any_field_holds, any_type_holds, any_version_holds, ArrayKind, ChunkModel, FieldModel,
    ReferenceKind, TypeModel, VersionModel,
};

verus! {

/// The size of a field descriptor.
pub const FIELD_DESCRIPTOR_SIZE: usize = 32;

/// The size of one entry of a chunk's version table.
pub const VERSION_ENTRY_SIZE: usize = 24;

/// The size of a chunk descriptor: tag, version count, table address.
pub const CHUNK_DESCRIPTOR_SIZE: usize = 16;

/// The type tags that a field descriptor can carry.
#[derive(Debug, Clone, Copy, PartialEq, Eq, Structural)]
pub enum BuiltinFieldType {
    End,
    FixedArray,
    Array,
    PtrArray,
    Byte,
    Byte4,
    Double,
    DWord,
    FileName,
    Float,
    Float2,
    Float3,
    Float4,
    Reference,
    QWord,
    WideCString,
    CString,
    Inline,
    Word,
    UUID,
    Byte3,
    DWord2,
    DWord4,
    Word3,
    FileRef,
    Variant,
    StructCommon,
    SmallArray,
}

/// The tag that a number stands for.
pub open spec fn field_type_of(num: u16) -> Result<BuiltinFieldType, Error> {
    if num == 0 {
        Ok(BuiltinFieldType::End)
    } else if num == 1 {
        Ok(BuiltinFieldType::FixedArray)
    } else if num == 2 {
        Ok(BuiltinFieldType::Array)
    } else if num == 3 {
        Ok(BuiltinFieldType::PtrArray)
    } else if num == 5 {
        Ok(BuiltinFieldType::Byte)
    } else if num == 6 {
        Ok(BuiltinFieldType::Byte4)
    } else if num == 7 {
        Ok(BuiltinFieldType::Double)
    } else if num == 10 {
        Ok(BuiltinFieldType::DWord)
    } else if num == 11 {
        Ok(BuiltinFieldType::FileName)
    } else if num == 12 {
        Ok(BuiltinFieldType::Float)
    } else if num == 13 {
        Ok(BuiltinFieldType::Float2)
    } else if num == 14 {
        Ok(BuiltinFieldType::Float3)
    } else if num == 15 {
        Ok(BuiltinFieldType::Float4)
    } else if num == 16 {
        Ok(BuiltinFieldType::Reference)
    } else if num == 17 {
        Ok(BuiltinFieldType::QWord)
    } else if num == 18 {
        Ok(BuiltinFieldType::WideCString)
    } else if num == 19 {
        Ok(BuiltinFieldType::CString)
    } else if num == 20 {
        Ok(BuiltinFieldType::Inline)
    } else if num == 21 {
        Ok(BuiltinFieldType::Word)
    } else if num == 22 {
        Ok(BuiltinFieldType::UUID)
    } else if num == 23 {
        Ok(BuiltinFieldType::Byte3)
    } else if num == 24 {
        Ok(BuiltinFieldType::DWord2)
    } else if num == 25 {
        Ok(BuiltinFieldType::DWord4)
    } else if num == 26 {
        Ok(BuiltinFieldType::Word3)
    } else if num == 27 {
        Ok(BuiltinFieldType::FileRef)
    } else if num == 28 {
        Ok(BuiltinFieldType::Variant)
    } else if num == 29 {
        Ok(BuiltinFieldType::StructCommon)
    } else if num == 33 {
        Ok(BuiltinFieldType::SmallArray)
    } else {
        Err(Error::InvalidFieldType { num })
    }
}

impl BuiltinFieldType {
    /// The number that stands for the tag.
    pub open spec fn code_spec(self) -> u16 {
        match self {
            BuiltinFieldType::End => 0,
            BuiltinFieldType::FixedArray => 1,
            BuiltinFieldType::Array => 2,
            BuiltinFieldType::PtrArray => 3,
            BuiltinFieldType::Byte => 5,
            BuiltinFieldType::Byte4 => 6,
            BuiltinFieldType::Double => 7,
            BuiltinFieldType::DWord => 10,
            BuiltinFieldType::FileName => 11,
            BuiltinFieldType::Float => 12,
            BuiltinFieldType::Float2 => 13,
            BuiltinFieldType::Float3 => 14,
            BuiltinFieldType::Float4 => 15,
            BuiltinFieldType::Reference => 16,
            BuiltinFieldType::QWord => 17,
            BuiltinFieldType::WideCString => 18,
            BuiltinFieldType::CString => 19,
            BuiltinFieldType::Inline => 20,
            BuiltinFieldType::Word => 21,
            BuiltinFieldType::UUID => 22,
            BuiltinFieldType::Byte3 => 23,
            BuiltinFieldType::DWord2 => 24,
            BuiltinFieldType::DWord4 => 25,
            BuiltinFieldType::Word3 => 26,
            BuiltinFieldType::FileRef => 27,
            BuiltinFieldType::Variant => 28,
            BuiltinFieldType::StructCommon => 29,
            BuiltinFieldType::SmallArray => 33,
        }
    }

    /// The tag carries a pointer to an element type and a multiplicity.
    pub open spec fn is_array(self) -> bool {
        self == BuiltinFieldType::FixedArray || self == BuiltinFieldType::Array || self
            == BuiltinFieldType::PtrArray || self == BuiltinFieldType::SmallArray
    }

    /// The tag carries a pointer to one inner type.
    pub open spec fn is_reference(self) -> bool {
        self == BuiltinFieldType::Reference || self == BuiltinFieldType::Inline || self
            == BuiltinFieldType::StructCommon
    }

    /// The tag that a number stands for.
    pub fn from_code(num: u16) -> (r: Result<Self, Error>)
        ensures
            r == field_type_of(num),
    {
        match num {
            0 => Ok(BuiltinFieldType::End),
            1 => Ok(BuiltinFieldType::FixedArray),
            2 => Ok(BuiltinFieldType::Array),
            3 => Ok(BuiltinFieldType::PtrArray),
            5 => Ok(BuiltinFieldType::Byte),
            6 => Ok(BuiltinFieldType::Byte4),
            7 => Ok(BuiltinFieldType::Double),
            10 => Ok(BuiltinFieldType::DWord),
            11 => Ok(BuiltinFieldType::FileName),
            12 => Ok(BuiltinFieldType::Float),
            13 => Ok(BuiltinFieldType::Float2),
            14 => Ok(BuiltinFieldType::Float3),
            15 => Ok(BuiltinFieldType::Float4),
            16 => Ok(BuiltinFieldType::Reference),
            17 => Ok(BuiltinFieldType::QWord),
            18 => Ok(BuiltinFieldType::WideCString),
            19 => Ok(BuiltinFieldType::CString),
            20 => Ok(BuiltinFieldType::Inline),
            21 => Ok(BuiltinFieldType::Word),
            22 => Ok(BuiltinFieldType::UUID),
            23 => Ok(BuiltinFieldType::Byte3),
            24 => Ok(BuiltinFieldType::DWord2),
            25 => Ok(BuiltinFieldType::DWord4),
            26 => Ok(BuiltinFieldType::Word3),
            27 => Ok(BuiltinFieldType::FileRef),
            28 => Ok(BuiltinFieldType::Variant),
            29 => Ok(BuiltinFieldType::StructCommon),
            33 => Ok(BuiltinFieldType::SmallArray),
            num => Err(Error::InvalidFieldType { num }),
        }
    }

    /// The number that stands for the tag.
    pub fn code(&self) -> (num: u16)
        ensures
            num == self.code_spec(),
            field_type_of(num) == Ok::<BuiltinFieldType, Error>(*self),
    {
        match self {
            BuiltinFieldType::End => 0,
            BuiltinFieldType::FixedArray => 1,
            BuiltinFieldType::Array => 2,
            BuiltinFieldType::PtrArray => 3,
            BuiltinFieldType::Byte => 5,
            BuiltinFieldType::Byte4 => 6,
            BuiltinFieldType::Double => 7,
            BuiltinFieldType::DWord => 10,
            BuiltinFieldType::FileName => 11,
            BuiltinFieldType::Float => 12,
            BuiltinFieldType::Float2 => 13,
            BuiltinFieldType::Float3 => 14,
            BuiltinFieldType::Float4 => 15,
            BuiltinFieldType::Reference => 16,
            BuiltinFieldType::QWord => 17,
            BuiltinFieldType::WideCString => 18,
            BuiltinFieldType::CString => 19,
            BuiltinFieldType::Inline => 20,
            BuiltinFieldType::Word => 21,
            BuiltinFieldType::UUID => 22,
            BuiltinFieldType::Byte3 => 23,
            BuiltinFieldType::DWord2 => 24,
            BuiltinFieldType::DWord4 => 25,
            BuiltinFieldType::Word3 => 26,
            BuiltinFieldType::FileRef => 27,
            BuiltinFieldType::Variant => 28,
            BuiltinFieldType::StructCommon => 29,
            BuiltinFieldType::SmallArray => 33,
        }
    }
}

/// An array of `size` elements stored in place.
pub open spec fn inline_array(inner: TypeModel, size: u64) -> TypeModel {
    TypeModel::Array { kind: ArrayKind::Inline { size }, inner: Box::new(inner) }
}

/// The type of a field whose tag needs no pointer.
pub open spec fn plain_type(tag: BuiltinFieldType) -> TypeModel {
    match tag {
        BuiltinFieldType::Byte => TypeModel::U8,
        BuiltinFieldType::Word => TypeModel::U16,
        BuiltinFieldType::DWord => TypeModel::U32,
        BuiltinFieldType::QWord => TypeModel::U64,
        BuiltinFieldType::Float => TypeModel::F32,
        BuiltinFieldType::Double => TypeModel::F64,
        BuiltinFieldType::FileName => TypeModel::FileName,
        BuiltinFieldType::FileRef => TypeModel::FileRef,
        BuiltinFieldType::Byte3 => inline_array(TypeModel::U8, 3),
        BuiltinFieldType::Byte4 => inline_array(TypeModel::U8, 4),
        BuiltinFieldType::Word3 => inline_array(TypeModel::U16, 3),
        BuiltinFieldType::DWord2 => inline_array(TypeModel::U32, 2),
        BuiltinFieldType::DWord4 => inline_array(TypeModel::U32, 4),
        BuiltinFieldType::Float2 => inline_array(TypeModel::F32, 2),
        BuiltinFieldType::Float3 => inline_array(TypeModel::F32, 3),
        BuiltinFieldType::Float4 => inline_array(TypeModel::F32, 4),
        BuiltinFieldType::UUID => TypeModel::UUID,
        BuiltinFieldType::CString => TypeModel::CString { wide: false },
        BuiltinFieldType::WideCString => TypeModel::CString { wide: true },
        _ => TypeModel::U8,
    }
}

/// The flavour of array that a tag stands for.
pub open spec fn array_kind(tag: BuiltinFieldType, size: u64) -> ArrayKind {
    match tag {
        BuiltinFieldType::FixedArray => ArrayKind::Fixed { size },
        BuiltinFieldType::Array => ArrayKind::Dynamic { size },
        BuiltinFieldType::SmallArray => ArrayKind::DynamicSmall { size },
        _ => ArrayKind::Pointers { size },
    }
}

/// The kind of reference that a tag stands for.
pub open spec fn reference_kind(tag: BuiltinFieldType) -> ReferenceKind {
    match tag {
        BuiltinFieldType::Reference => ReferenceKind::Optional,
        BuiltinFieldType::Inline => ReferenceKind::Inline,
        _ => ReferenceKind::StructCommon,
    }
}

/// The type that a field list with the closing name `name` stands for: one
/// of the built-in kinds if the name is theirs, else a composite of the
/// fields.
pub open spec fn named_type(name: Seq<char>, fields: Seq<FieldModel>) -> TypeModel {
    if name == "byte"@ {
        TypeModel::U8
    } else if name == "dword"@ {
        TypeModel::U32
    } else if name == "word"@ {
        TypeModel::U16
    } else if name == "qword"@ {
        TypeModel::U64
    } else if name == "float"@ {
        TypeModel::F32
    } else if name == "double"@ {
        TypeModel::F64
    } else if name == "byte3"@ {
        inline_array(TypeModel::U8, 3)
    } else if name == "byte4"@ {
        inline_array(TypeModel::U8, 4)
    } else if name == "word3"@ {
        inline_array(TypeModel::U16, 3)
    } else if name == "dword4"@ {
        inline_array(TypeModel::U32, 4)
    } else if name == "float2"@ {
        inline_array(TypeModel::F32, 2)
    } else if name == "float3"@ {
        inline_array(TypeModel::F32, 3)
    } else if name == "float4"@ {
        inline_array(TypeModel::F32, 4)
    } else if name == "filename"@ {
        TypeModel::FileName
    } else if name == "fileref"@ {
        TypeModel::FileRef
    } else if name == "token"@ {
        TypeModel::Token
    } else if name == "char *"@ {
        TypeModel::CString { wide: false }
    } else if name == "wchar *"@ {
        TypeModel::CString { wide: true }
    } else {
        TypeModel::Composite { name, fields, holds_input_references: any_field_holds(fields) }
    }
}

/// What one field descriptor yields.
pub enum FieldResultModel {
    /// A member of the type being read.
    Field(FieldModel),
    /// The closing descriptor, which names the type itself.
    TypeName(Seq<char>),
}

/// The type that the descriptor `d` gives its field, for a tag other than
/// the closing one.
pub open spec fn field_type(image: ImageView, d: Seq<u8>, tag: BuiltinFieldType, fuel: nat)
    -> Result<TypeModel, Error>
    decreases fuel, 0nat, 0nat,
{
    if tag.is_array() || tag.is_reference() {
        match rva_to_offset(image, u64_at(d, 16) as u64) {
            Err(e) => Err(e),
            Ok(offset) => if fuel == 0 {
                Err(Error::NestingTooDeep)
            } else {
                match type_at(image, offset, (fuel - 1) as nat) {
                    Err(e) => Err(e),
                    Ok(inner) => if tag.is_array() {
                        Ok(
                            TypeModel::Array {
                                kind: array_kind(tag, u64_at(d, 24) as u64),
                                inner: Box::new(inner),
                            },
                        )
                    } else {
                        Ok(TypeModel::Reference { kind: reference_kind(tag), inner: Box::new(inner) })
                    },
                }
            },
        }
    } else if tag == BuiltinFieldType::Variant {
        match rva_to_offset(image, u64_at(d, 16) as u64) {
            Err(e) => Err(e),
            Ok(offset) => if fuel == 0 {
                Err(Error::NestingTooDeep)
            } else if image.bytes.len() <= offset {
                Err(Error::OffsetOutOfBounds { offset })
            } else {
                match variants_of(
                    image,
                    image.bytes.skip(offset as int),
                    u64_at(d, 24) as nat,
                    (fuel - 1) as nat,
                    Seq::empty(),
                ) {
                    Err(e) => Err(e),
                    Ok(variants) => Ok(
                        TypeModel::Variant {
                            variants,
                            holds_input_references: any_type_holds(variants),
                        },
                    ),
                }
            },
        }
    } else {
        Ok(plain_type(tag))
    }
}

/// What the 32-byte descriptor at the front of `d` yields: the tag is looked
/// up first, then the name is resolved, then the type.
pub open spec fn field_of(image: ImageView, d: Seq<u8>, fuel: nat) -> Result<
    FieldResultModel,
    Error,
>
    decreases fuel, 1nat, 0nat,
{
    match field_type_of(u16_at(d, 0) as u16) {
        Err(e) => Err(e),
        Ok(tag) => match rva_to_offset(image, u64_at(d, 8) as u64) {
            Err(e) => Err(e),
            Ok(name_at) => match text_at(image.bytes, name_at) {
                Err(e) => Err(e),
                Ok(name) => if tag == BuiltinFieldType::End {
                    Ok(FieldResultModel::TypeName(name))
                } else {
                    match field_type(image, d, tag, fuel) {
                        Err(e) => Err(e),
                        Ok(ty) => Ok(FieldResultModel::Field(FieldModel { name, ty })),
                    }
                },
            },
        },
    }
}

/// The type that the field list at the front of `bytes` stands for, with
/// `fields` already read, and what follows the list.
pub open spec fn fields_of(image: ImageView, bytes: Seq<u8>, fuel: nat, fields: Seq<FieldModel>)
    -> Result<(TypeModel, Seq<u8>), Error>
    decreases fuel, 2nat, bytes.len(),
{
    match after(bytes, 32) {
        Err(e) => Err(e),
        Ok(rest) => match field_of(image, bytes, fuel) {
            Err(e) => Err(e),
            Ok(FieldResultModel::TypeName(name)) => Ok((named_type(name, fields), rest)),
            Ok(FieldResultModel::Field(field)) => fields_of(image, rest, fuel, fields.push(field)),
        },
    }
}

/// The type whose field list starts at the file offset.
pub open spec fn type_at(image: ImageView, offset: u64, fuel: nat) -> Result<TypeModel, Error>
    decreases fuel, 3nat, 0nat,
{
    if image.bytes.len() <= offset {
        Err(Error::OffsetOutOfBounds { offset })
    } else {
        match fields_of(image, image.bytes.skip(offset as int), fuel, Seq::empty()) {
            Err(e) => Err(e),
            Ok((ty, _)) => Ok(ty),
        }
    }
}

/// The alternatives of a variant: `count` addresses at the front of `table`,
/// each of a field list, after the `found` already read.
pub open spec fn variants_of(
    image: ImageView,
    table: Seq<u8>,
    count: nat,
    fuel: nat,
    found: Seq<TypeModel>,
) -> Result<Seq<TypeModel>, Error>
    decreases fuel, 4nat, count,
{
    if count == 0 {
        Ok(found)
    } else {
        match after(table, 8) {
            Err(e) => Err(e),
            Ok(rest) => match rva_to_offset(image, u64_at(table, 0) as u64) {
                Err(e) => Err(e),
                Ok(offset) => match type_at(image, offset, fuel) {
                    Err(e) => Err(e),
                    Ok(ty) => variants_of(image, rest, (count - 1) as nat, fuel, found.push(ty)),
                },
            },
        }
    }
}

/// The type that the field list at the front of `bytes` stands for, and what
/// follows the list.
pub open spec fn type_of(image: ImageView, bytes: Seq<u8>, fuel: nat) -> Result<
    (TypeModel, Seq<u8>),
    Error,
> {
    fields_of(image, bytes, fuel, Seq::empty())
}

/// The versions with a layout among entries `next..count` of the version
/// table at the front of `table`, after the `found` already read. An entry
/// whose root address resolves to offset zero has no layout.
pub open spec fn versions_of(
    image: ImageView,
    table: Seq<u8>,
    next: int,
    count: int,
    fuel: nat,
    found: Seq<VersionModel>,
) -> Result<(Seq<VersionModel>, Seq<u8>), Error>
    decreases count - next,
{
    if next >= count {
        Ok((found, table))
    } else {
        match after(table, 24) {
            Err(e) => Err(e),
            Ok(rest) => match rva_to_offset(image, u64_at(table, 0) as u64) {
                Err(e) => Err(e),
                Ok(offset) => if offset == 0 {
                    versions_of(image, rest, next + 1, count, fuel, found)
                } else {
                    match type_at(image, offset, fuel) {
                        Err(e) => Err(e),
                        Ok(root) => versions_of(
                            image,
                            rest,
                            next + 1,
                            count,
                            fuel,
                            found.push(VersionModel { version: next as u32, root }),
                        ),
                    }
                },
            },
        }
    }
}

/// What identifies a chunk descriptor: its tag, its version count and the
/// file offset of its version table.
#[derive(Debug, Clone, Copy, PartialEq, Eq, Structural)]
pub struct ChunkIdentifier {
    pub magic: u32,
    pub max_version: u32,
    pub meta_offset: u64,
}

impl ChunkIdentifier {
    /// The identity as one number, different for different identities.
    pub open spec fn key(self) -> u128 {
        (self.magic as int * 0x1_0000_0000_0000_0000_0000_0000 + self.max_version as int
            * 0x1_0000_0000_0000_0000 + self.meta_offset as int) as u128
    }

    /// The identity as one number, by which a set can hold it.
    pub fn packed(&self) -> (k: u128)
        ensures
            k == self.key(),
    {
        (self.magic as u128) * 0x1_0000_0000_0000_0000_0000_0000 + (self.max_version as u128)
            * 0x1_0000_0000_0000_0000 + (self.meta_offset as u128)
    }
}

/// Different identities have different keys.
pub proof fn lemma_key_injective(a: ChunkIdentifier, b: ChunkIdentifier)
    requires
        a.key() == b.key(),
    ensures
        a == b,
{
}

/// The bytes of a tag that count: three if the fourth is zero, else four.
pub open spec fn magic_bytes(bytes: Seq<u8>) -> Seq<u8> {
    if bytes[3] == 0 {
        bytes.take(3)
    } else {
        bytes.take(4)
    }
}

/// The head of the chunk descriptor at the front of `bytes`: the tag as
/// text, and the identity.
pub open spec fn chunk_header(image: ImageView, bytes: Seq<u8>) -> Result<
    (Seq<char>, ChunkIdentifier),
    Error,
> {
    if bytes.len() < 4 {
        Err(Error::DataTooShort { required: 4, actual: bytes.len() as usize })
    } else if !vstd::utf8::valid_utf8(magic_bytes(bytes)) {
        Err(Error::DecodingFailed)
    } else if bytes.len() < 8 {
        Err(Error::DataTooShort { required: 4, actual: (bytes.len() - 4) as usize })
    } else if bytes.len() < 16 {
        Err(Error::DataTooShort { required: 8, actual: (bytes.len() - 8) as usize })
    } else {
        match rva_to_offset(image, u64_at(bytes, 8) as u64) {
            Err(e) => Err(e),
            Ok(meta_offset) => Ok(
                (
                    vstd::utf8::decode_utf8(magic_bytes(bytes)),
                    ChunkIdentifier {
                        magic: u32_at(bytes, 0) as u32,
                        max_version: u32_at(bytes, 4) as u32,
                        meta_offset,
                    },
                ),
            ),
        }
    }
}

/// The chunk that a descriptor with the given head describes, when the
/// identities in `seen` were met before.
pub open spec fn chunk_body(
    image: ImageView,
    seen: Set<u128>,
    magic: Seq<char>,
    id: ChunkIdentifier,
    fuel: nat,
) -> Result<ChunkModel, Error> {
    if seen.contains(id.key()) {
        Err(
            Error::DuplicateChunk {
                magic: id.magic,
                max_version: id.max_version,
                meta_offset: id.meta_offset,
            },
        )
    } else if id.meta_offset == 0 {
        Err(Error::NoChunks)
    } else if image.bytes.len() <= id.meta_offset {
        Err(Error::OffsetOutOfBounds { offset: id.meta_offset })
    } else {
        match versions_of(
            image,
            image.bytes.skip(id.meta_offset as int),
            0,
            id.max_version as int,
            fuel,
            Seq::empty(),
        ) {
            Err(e) => Err(e),
            Ok((versions, _)) => if versions.len() == 0 {
                Err(Error::NoChunks)
            } else {
                Ok(
                    ChunkModel {
                        magic,
                        holds_input_references: any_version_holds(versions),
                        versions,
                    },
                )
            },
        }
    }
}

/// The chunk that the descriptor at the front of `bytes` describes.
#[verifier::opaque]
pub open spec fn chunk_of(image: ImageView, seen: Set<u128>, bytes: Seq<u8>, fuel: nat) -> Result<
    ChunkModel,
    Error,
> {
    match chunk_header(image, bytes) {
        Err(e) => Err(e),
        Ok((magic, id)) => chunk_body(image, seen, magic, id, fuel),
    }
}

/// The identities met once the descriptor at the front of `bytes` has been
/// looked at: its own is added as soon as its head can be read.
#[verifier::opaque]
pub open spec fn seen_after(image: ImageView, seen: Set<u128>, bytes: Seq<u8>) -> Set<u128> {
    match chunk_header(image, bytes) {
        Err(_) => seen,
        Ok((_, id)) => seen.insert(id.key()),
    }
}

/// A descriptor whose identity was met before is turned away as a duplicate,
/// wherever in the image it is found.
pub proof fn lemma_second_hit_is_duplicate(
    image: ImageView,
    seen: Set<u128>,
    first: Seq<u8>,
    second: Seq<u8>,
    fuel: nat,
)
    requires
        chunk_header(image, first) is Ok,
        chunk_header(image, second) is Ok,
        chunk_header(image, first)->Ok_0.1 == chunk_header(image, second)->Ok_0.1,
    ensures
        chunk_of(image, seen_after(image, seen, first), second, fuel) == Err::<ChunkModel, Error>(
            Error::DuplicateChunk {
                magic: u32_at(second, 0) as u32,
                max_version: u32_at(second, 4) as u32,
                meta_offset: chunk_header(image, second)->Ok_0.1.meta_offset,
            },
        ),
        seen_after(image, seen_after(image, seen, first), second) == seen_after(
            image,
            seen,
            first,
        ),
{
    reveal(chunk_of);
    reveal(seen_after);
    let id = chunk_header(image, first)->Ok_0.1;
    assert(seen.insert(id.key()).insert(id.key()) =~= seen.insert(id.key()));
}

/// A chunk is given only for a descriptor that was not met before, whose
/// table is not null, and of which at least one version has a layout.
pub proof fn lemma_chunk_is_fresh_and_has_a_version(
    image: ImageView,
    seen: Set<u128>,
    bytes: Seq<u8>,
    fuel: nat,
)
    requires
        chunk_of(image, seen, bytes, fuel) is Ok,
    ensures
        chunk_header(image, bytes) is Ok,
        !seen.contains(chunk_header(image, bytes)->Ok_0.1.key()),
        chunk_header(image, bytes)->Ok_0.1.meta_offset != 0,
        chunk_of(image, seen, bytes, fuel)->Ok_0.versions.len() > 0,
        chunk_of(image, seen, bytes, fuel)->Ok_0.magic == chunk_header(image, bytes)->Ok_0.0,
        bytes.len() >= 16,
{
    reveal(chunk_of);
}

/// The four tag bytes have the bit pattern of ASCII letters, and the upper
/// three bytes of the version count are zero.
pub open spec fn passes_mask(bytes: Seq<u8>) -> bool {
    &&& bytes[0] & 0xc0 == 0x40
    &&& bytes[1] & 0xc0 == 0x40
    &&& bytes[2] & 0xc0 == 0x40
    &&& bytes[3] & 0xc0 == 0x40
    &&& bytes[5] == 0
    &&& bytes[6] == 0
    &&& bytes[7] == 0
}

/// The byte is an ASCII letter.
pub open spec fn is_letter(b: u8) -> bool {
    (0x41 <= b <= 0x5a) || (0x61 <= b <= 0x7a)
}

/// The eight bytes at the front of `bytes` look like the head of a chunk
/// descriptor.
pub open spec fn is_candidate(bytes: Seq<u8>) -> bool {
    &&& passes_mask(bytes)
    &&& is_letter(bytes[0])
    &&& is_letter(bytes[1])
    &&& is_letter(bytes[2])
    &&& is_letter(bytes[3])
}

/// Where a scan stands after it has looked for the next chunk.
pub struct ScanStep {
    /// The chunk found, if the image held another.
    pub found: Option<ChunkModel>,
    /// The identities met so far.
    pub seen: Set<u128>,
    /// The bytes not yet looked at.
    pub rest: Seq<u8>,
}

/// The next chunk of a scan over `bytes` in strides of eight bytes: a
/// candidate that does not parse is passed over; after one that does, the
/// scan goes on behind its descriptor.
pub open spec fn scan(image: ImageView, seen: Set<u128>, bytes: Seq<u8>, fuel: nat) -> ScanStep
    decreases bytes.len(),
{
    if bytes.len() < 8 {
        ScanStep { found: None, seen, rest: bytes }
    } else if is_candidate(bytes) {
        match chunk_of(image, seen, bytes, fuel) {
            Ok(chunk) => ScanStep {
                found: Some(chunk),
                seen: seen_after(image, seen, bytes),
                rest: bytes.skip(16),
            },
            Err(_) => scan(image, seen_after(image, seen, bytes), bytes.skip(8), fuel),
        }
    } else {
        scan(image, seen, bytes.skip(8), fuel)
    }
}

/// A scan only moves forward and only adds to the identities met; it gives
/// no chunk only once fewer than eight bytes are left.
pub proof fn lemma_scan_moves_forward(image: ImageView, seen: Set<u128>, bytes: Seq<u8>, fuel: nat)
    ensures
        is_tail(scan(image, seen, bytes, fuel).rest, bytes),
        seen.subset_of(scan(image, seen, bytes, fuel).seen),
        scan(image, seen, bytes, fuel).found is None ==> scan(image, seen, bytes, fuel).rest.len()
            < 8,
        scan(image, seen, bytes, fuel).found is Some ==> scan(image, seen, bytes, fuel).rest.len()
            + 16 <= bytes.len(),
    decreases bytes.len(),
{
    reveal(seen_after);
    if bytes.len() < 8 {
        lemma_skip_is_tail(bytes, 0);
        assert(bytes.skip(0) =~= bytes);
    } else if is_candidate(bytes) {
        match chunk_of(image, seen, bytes, fuel) {
            Ok(chunk) => {
                lemma_chunk_is_fresh_and_has_a_version(image, seen, bytes, fuel);
                lemma_skip_is_tail(bytes, 16);
            },
            Err(_) => {
                let next = seen_after(image, seen, bytes);
                lemma_scan_moves_forward(image, next, bytes.skip(8), fuel);
                lemma_skip_is_tail(bytes, 8);
                lemma_tail_of_tail(scan(image, next, bytes.skip(8), fuel).rest, bytes.skip(8), bytes);
            },
        }
    } else {
        lemma_scan_moves_forward(image, seen, bytes.skip(8), fuel);
        lemma_skip_is_tail(bytes, 8);
        lemma_tail_of_tail(scan(image, seen, bytes.skip(8), fuel).rest, bytes.skip(8), bytes);
    }
}

} // verus!
