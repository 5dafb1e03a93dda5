//! Recovery of chunk layouts from the reflection tables that an executable
//! image carries as static data.

use vstd::prelude::*;
use std::collections::HashSet;
use crate::analyze::image::{header_ok, image_of, PE};
use crate::analyze::layout::{
    chunk_header, chunk_of, field_of, fields_of, is_candidate, is_letter, named_type, plain_type,
    scan, seen_after, type_at, type_of, variants_of, versions_of, BuiltinFieldType,
    ChunkIdentifier, FieldResultModel, CHUNK_DESCRIPTOR_SIZE, FIELD_DESCRIPTOR_SIZE,
    VERSION_ENTRY_SIZE,
};
use crate::analyze::reader::{after, Reader};
use crate::bytes::{read_u16, read_u32, read_u64, text_eq};
use crate::structure::{
    any_version_holds, fields_model, types_model, ArrayKind, Chunk, Field, FieldModel,
    ReferenceKind, SpecificChunkVersion, Type, TypeModel, VersionModel,
};

pub mod image;
pub mod layout;
pub mod reader;

verus! {

/// Why a read from the image, or the parse of a candidate record, failed.
#[derive(Debug, Clone, Copy, PartialEq, Eq, Structural)]
pub enum Error {
    /// No section of the image contains the relative address.
    NoSectionFound { rva: u64 },
    /// The type tag of a field descriptor is not one of the known tags.
    InvalidFieldType { num: u16 },
    /// The address lies below the image base.
    RvaOutOfBounds { rva: u64 },
    /// The file offset lies at or beyond the end of the image.
    OffsetOutOfBounds { offset: u64 },
    /// The same tag, version count and table offset were seen before.
    DuplicateChunk { magic: u32, max_version: u32, meta_offset: u64 },
    /// No version of the chunk has a layout.
    NoChunks,
    /// A name is not valid UTF-8.
    DecodingFailed,
    /// Fewer bytes are left than the read needs.
    DataTooShort { required: usize, actual: usize },
    /// Types nest deeper than the walker was allowed to follow.
    NestingTooDeep,
}

/// How many levels of nested types a scan follows unless told otherwise.
pub const DEFAULT_MAX_DEPTH: usize = 64;

/// What one field descriptor yields: the last descriptor of a field list
/// carries the name of the type and ends the list.
#[derive(Debug)]
pub enum FieldParseResult<'a> {
    Field(Field<'a>),
    TypeName(&'a str),
}

impl<'a> FieldParseResult<'a> {
    /// The mathematical value of the result.
    pub open spec fn model(&self) -> FieldResultModel {
        match self {
            FieldParseResult::Field(field) => FieldResultModel::Field(
                FieldModel { name: field.name@, ty: field._type.model() },
            ),
            FieldParseResult::TypeName(name) => FieldResultModel::TypeName(name@),
        }
    }

    /// Every flag recorded in the result is the one its members call for.
    pub open spec fn flags_exact(&self) -> bool {
        match self {
            FieldParseResult::Field(field) => field._type.model().flags_exact(),
            FieldParseResult::TypeName(_) => true,
        }
    }
}

/// A scan over an image for chunk descriptors.
pub struct Parser<'a> {
    /// The image that addresses are resolved in.
    pub exe: PE<'a>,
    /// The identities of the descriptors met so far, each as the number that
    /// [`ChunkIdentifier::packed`] gives it.
    pub chunk_cache: HashSet<u128>,
    /// The part of the image not yet looked at.
    pub remaining_bytes: &'a [u8],
    /// How many levels of nested types are followed.
    pub max_depth: usize,
}

/// The values of a list of versions, in order.
pub open spec fn versions_model(versions: Seq<SpecificChunkVersion<'_>>) -> Seq<VersionModel> {
    Seq::new(
        versions.len(),
        |i: int| VersionModel { version: versions[i].version, root: versions[i].root.model() },
    )
}

/// Every flag recorded in the fields is the one its members call for.
pub open spec fn fields_exact(fields: Seq<Field<'_>>) -> bool {
    forall|i: int| 0 <= i < fields.len() ==> (#[trigger] fields[i])._type.model().flags_exact()
}

/// Every flag recorded in the types is the one its members call for.
pub open spec fn types_exact(types: Seq<Type<'_>>) -> bool {
    forall|i: int| 0 <= i < types.len() ==> (#[trigger] types[i]).model().flags_exact()
}

/// Every flag recorded in the versions is the one its members call for.
pub open spec fn versions_exact(versions: Seq<SpecificChunkVersion<'_>>) -> bool {
    forall|i: int| 0 <= i < versions.len() ==> (#[trigger] versions[i]).root.model().flags_exact()
}

/// The type that a field list with the closing name `name` stands for.
fn named<'a>(name: &'a str, fields: Vec<Field<'a>>) -> (t: Type<'a>)
    ensures
        t.model() == named_type(name@, fields_model(fields@)),
        fields_exact(fields@) ==> t.model().flags_exact(),
{
    reveal_with_fuel(TypeModel::flags_exact, 2);
    if text_eq(name, "byte") {
        Type::U8
    } else if text_eq(name, "dword") {
        Type::U32
    } else if text_eq(name, "word") {
        Type::U16
    } else if text_eq(name, "qword") {
        Type::U64
    } else if text_eq(name, "float") {
        Type::F32
    } else if text_eq(name, "double") {
        Type::F64
    } else if text_eq(name, "byte3") {
        Type::inline_array(Type::U8, 3)
    } else if text_eq(name, "byte4") {
        Type::inline_array(Type::U8, 4)
    } else if text_eq(name, "word3") {
        Type::inline_array(Type::U16, 3)
    } else if text_eq(name, "dword4") {
        Type::inline_array(Type::U32, 4)
    } else if text_eq(name, "float2") {
        Type::inline_array(Type::F32, 2)
    } else if text_eq(name, "float3") {
        Type::inline_array(Type::F32, 3)
    } else if text_eq(name, "float4") {
        Type::inline_array(Type::F32, 4)
    } else if text_eq(name, "filename") {
        Type::FileName
    } else if text_eq(name, "fileref") {
        Type::FileRef
    } else if text_eq(name, "token") {
        Type::Token
    } else if text_eq(name, "char *") {
        Type::CString { wide: false }
    } else if text_eq(name, "wchar *") {
        Type::CString { wide: true }
    } else {
        Type::composite(name, fields)
    }
}

/// The type of a field whose tag needs no pointer.
fn plain<'a>(tag: BuiltinFieldType) -> (t: Type<'a>)
    requires
        !tag.is_array(),
        !tag.is_reference(),
        tag != BuiltinFieldType::Variant,
        tag != BuiltinFieldType::End,
    ensures
        t.model() == plain_type(tag),
        t.model().flags_exact(),
{
    reveal_with_fuel(TypeModel::flags_exact, 2);
    match tag {
        BuiltinFieldType::Byte => Type::U8,
        BuiltinFieldType::Word => Type::U16,
        BuiltinFieldType::DWord => Type::U32,
        BuiltinFieldType::QWord => Type::U64,
        BuiltinFieldType::Float => Type::F32,
        BuiltinFieldType::Double => Type::F64,
        BuiltinFieldType::FileName => Type::FileName,
        BuiltinFieldType::FileRef => Type::FileRef,
        BuiltinFieldType::Byte3 => Type::inline_array(Type::U8, 3),
        BuiltinFieldType::Byte4 => Type::inline_array(Type::U8, 4),
        BuiltinFieldType::Word3 => Type::inline_array(Type::U16, 3),
        BuiltinFieldType::DWord2 => Type::inline_array(Type::U32, 2),
        BuiltinFieldType::DWord4 => Type::inline_array(Type::U32, 4),
        BuiltinFieldType::Float2 => Type::inline_array(Type::F32, 2),
        BuiltinFieldType::Float3 => Type::inline_array(Type::F32, 3),
        BuiltinFieldType::Float4 => Type::inline_array(Type::F32, 4),
        BuiltinFieldType::UUID => Type::UUID,
        BuiltinFieldType::CString => Type::CString { wide: false },
        _ => Type::CString { wide: true },
    }
}

impl<'a> Parser<'a> {
    /// Reads one 32-byte field descriptor and, for a tag that points on, the
    /// type it points to, descending at most `depth` levels.
    pub fn prase_field(&self, input: &mut Reader<'a>, depth: usize) -> (r: Result<
        FieldParseResult<'a>,
        Error,
    >)
        ensures
            match after(old(input).remaining@, 32) {
                Err(e) => r is Err && r->Err_0 == e && final(input).remaining@ == old(input).remaining@,
                Ok(rest) => final(input).remaining@ == rest && match field_of(
                    self.exe@,
                    old(input).remaining@,
                    depth as nat,
                ) {
                    Err(e) => r is Err && r->Err_0 == e,
                    Ok(m) => r is Ok && r->Ok_0.model() == m && r->Ok_0.flags_exact(),
                },
            },
        decreases depth, 0nat,
    {
        let all = input.remaining;
        if all.len() < FIELD_DESCRIPTOR_SIZE {
            return Err(Error::DataTooShort { required: FIELD_DESCRIPTOR_SIZE, actual: all.len() });
        }
        input.remaining = &all[FIELD_DESCRIPTOR_SIZE..all.len()];
        let tag = BuiltinFieldType::from_code(read_u16(all, 0))?;
        let name_at = self.exe.offset_of_address(read_u64(all, 8))?;
        let name = self.exe.get_str_at(name_at)?;
        let _type = match tag {
            BuiltinFieldType::End => {
                return Ok(FieldParseResult::TypeName(name));
            },
            BuiltinFieldType::FixedArray
            | BuiltinFieldType::Array
            | BuiltinFieldType::SmallArray
            | BuiltinFieldType::PtrArray => {
                let offset = self.exe.offset_of_address(read_u64(all, 16))?;
                let size = read_u64(all, 24);
                if depth == 0 {
                    return Err(Error::NestingTooDeep);
                }
                let inner = self.type_at_offset(offset, depth - 1)?;
                let kind = match tag {
                    BuiltinFieldType::FixedArray => ArrayKind::Fixed { size },
                    BuiltinFieldType::Array => ArrayKind::Dynamic { size },
                    BuiltinFieldType::SmallArray => ArrayKind::DynamicSmall { size },
                    _ => ArrayKind::Pointers { size },
                };
                Type::Array { kind, inner: Box::new(inner) }
            },
            BuiltinFieldType::Reference
            | BuiltinFieldType::Inline
            | BuiltinFieldType::StructCommon => {
                let offset = self.exe.offset_of_address(read_u64(all, 16))?;
                if depth == 0 {
                    return Err(Error::NestingTooDeep);
                }
                let inner = self.type_at_offset(offset, depth - 1)?;
                let kind = match tag {
                    BuiltinFieldType::Reference => ReferenceKind::Optional,
                    BuiltinFieldType::Inline => ReferenceKind::Inline,
                    _ => ReferenceKind::StructCommon,
                };
                Type::Reference { kind, inner: Box::new(inner) }
            },
            BuiltinFieldType::Variant => {
                let offset = self.exe.offset_of_address(read_u64(all, 16))?;
                let size = read_u64(all, 24);
                if depth == 0 {
                    return Err(Error::NestingTooDeep);
                }
                let mut table = self.exe.reader_from_offset(offset)?;
                let variants = self.parse_variants(&mut table, size, depth - 1)?;
                Type::variant(variants)
            },
            _ => plain(tag),
        };
        Ok(FieldParseResult::Field(Field { name, _type }))
    }

    /// Reads the type whose field list starts at a file offset, descending
    /// at most `depth` levels.
    pub fn type_at_offset(&self, offset: u64, depth: usize) -> (r: Result<Type<'a>, Error>)
        ensures
            match type_at(self.exe@, offset, depth as nat) {
                Ok(t) => r is Ok && r->Ok_0.model() == t && t.flags_exact(),
                Err(e) => r is Err && r->Err_0 == e,
            },
        decreases depth, 2nat,
    {
        let mut input = self.exe.reader_from_offset(offset)?;
        self.parse_type(&mut input, depth)
    }

    /// Reads `count` addresses of field lists and the type of each,
    /// descending at most `depth` levels.
    fn parse_variants(&self, table: &mut Reader<'a>, count: u64, depth: usize) -> (r: Result<
        Vec<Type<'a>>,
        Error,
    >)
        ensures
            match variants_of(
                self.exe@,
                old(table).remaining@,
                count as nat,
                depth as nat,
                Seq::empty(),
            ) {
                Ok(variants) => r is Ok && types_model(r->Ok_0@) == variants && types_exact(
                    r->Ok_0@,
                ),
                Err(e) => r is Err && r->Err_0 == e,
            },
        decreases depth, 3nat,
    {
        let mut variants: Vec<Type<'a>> = Vec::new();
        let mut left = count;
        assert(types_model(variants@) =~= Seq::empty());
        while left > 0
            invariant
                variants_of(
                    self.exe@,
                    old(table).remaining@,
                    count as nat,
                    depth as nat,
                    Seq::empty(),
                ) == variants_of(
                    self.exe@,
                    table.remaining@,
                    left as nat,
                    depth as nat,
                    types_model(variants@),
                ),
                types_exact(variants@),
            decreases left,
        {
            let ghost before = types_model(variants@);
            let variant_offset = table.eat_rva_as_offset(&self.exe)?;
            let inner = self.type_at_offset(variant_offset, depth)?;
            variants.push(inner);
            left -= 1;
            assert(types_model(variants@) =~= before.push(inner.model()));
        }
        Ok(variants)
    }

    /// Reads a field list up to its closing descriptor and gives the type it
    /// stands for, descending at most `depth` levels.
    pub fn parse_type(&self, input: &mut Reader<'a>, depth: usize) -> (r: Result<Type<'a>, Error>)
        ensures
            match type_of(self.exe@, old(input).remaining@, depth as nat) {
                Ok((t, rest)) => r is Ok && r->Ok_0.model() == t && t.flags_exact() && final(input).remaining@ == rest,
                Err(e) => r is Err && r->Err_0 == e,
            },
        decreases depth, 1nat,
    {
        let mut fields: Vec<Field<'a>> = Vec::new();
        assert(fields_model(fields@) =~= Seq::empty());
        loop
            invariant
                fields_of(self.exe@, old(input).remaining@, depth as nat, Seq::empty()) == fields_of(
                    self.exe@,
                    input.remaining@,
                    depth as nat,
                    fields_model(fields@),
                ),
                fields_exact(fields@),
            decreases input.remaining@.len(),
        {
            let ghost before = fields_model(fields@);
            match self.prase_field(input, depth)? {
                FieldParseResult::Field(field) => {
                    fields.push(field);
                    assert(fields_model(fields@) =~= before.push(
                        FieldModel { name: field.name@, ty: field._type.model() },
                    ));
                },
                FieldParseResult::TypeName(name) => {
                    return Ok(named(name, fields));
                },
            }
        }
    }

    /// Reads `n_versions` entries of a version table and the root type of
    /// each entry that has one.
    pub fn parse_chunk_versions(&self, input: &mut Reader<'a>, n_versions: u32) -> (r: Result<
        Vec<SpecificChunkVersion<'a>>,
        Error,
    >)
        ensures
            match versions_of(
                self.exe@,
                old(input).remaining@,
                0,
                n_versions as int,
                self.max_depth as nat,
                Seq::empty(),
            ) {
                Ok((versions, rest)) => r is Ok && versions_model(r->Ok_0@) == versions
                    && versions_exact(r->Ok_0@) && final(input).remaining@ == rest,
                Err(e) => r is Err && r->Err_0 == e,
            },
    {
        let mut chunks: Vec<SpecificChunkVersion<'a>> = Vec::new();
        let mut version: u32 = 0;
        assert(versions_model(chunks@) =~= Seq::empty());
        while version < n_versions
            invariant
                version <= n_versions,
                versions_of(
                    self.exe@,
                    old(input).remaining@,
                    0,
                    n_versions as int,
                    self.max_depth as nat,
                    Seq::empty(),
                ) == versions_of(
                    self.exe@,
                    input.remaining@,
                    version as int,
                    n_versions as int,
                    self.max_depth as nat,
                    versions_model(chunks@),
                ),
                versions_exact(chunks@),
            decreases n_versions - version,
        {
            let ghost before = versions_model(chunks@);
            let mut entry = input.eat_slice(VERSION_ENTRY_SIZE)?;
            let chunk_offset = entry.eat_rva_as_offset(&self.exe)?;
            if chunk_offset != 0 {
                let root = self.type_at_offset(chunk_offset, self.max_depth)?;
                chunks.push(SpecificChunkVersion { version, root });
                assert(versions_model(chunks@) =~= before.push(
                    VersionModel { version, root: root.model() },
                ));
            }
            version += 1;
        }
        Ok(chunks)
    }

    /// Parses the chunk descriptor at the front of `input`, and gives the
    /// chunk with the number of bytes its descriptor takes. The identity of
    /// the descriptor is recorded as soon as its head is read, and one that
    /// was recorded before is turned away.
    pub fn parse_chunk(&mut self, input: &mut Reader<'a>) -> (r: Result<(Chunk<'a>, usize), Error>)
        ensures
            final(self).exe == old(self).exe,
            final(self).remaining_bytes == old(self).remaining_bytes,
            final(self).max_depth == old(self).max_depth,
            final(self).chunk_cache@ == seen_after(
                old(self).exe@,
                old(self).chunk_cache@,
                old(input).remaining@,
            ),
            chunk_header(old(self).exe@, old(input).remaining@) is Ok ==> old(input).remaining@.len() >= 16 && final(input).remaining@ == old(input).remaining@.skip(16),
            r is Ok ==> chunk_header(old(self).exe@, old(input).remaining@) is Ok,
            match chunk_of(
                old(self).exe@,
                old(self).chunk_cache@,
                old(input).remaining@,
                old(self).max_depth as nat,
            ) {
                Ok(chunk) => r is Ok && r->Ok_0.0.deep_view() == chunk && r->Ok_0.1 == 16
                    && versions_exact(r->Ok_0.0.versions@),
                Err(e) => r is Err && r->Err_0 == e,
            },
    {
        reveal(chunk_of);
        reveal(seen_after);
        let all = input.remaining;
        let tag_input = input.eat_slice(4)?;
        let tag_bytes = tag_input.remaining;
        let significant = if tag_bytes[3] == 0 {
            &tag_bytes[0..3]
        } else {
            tag_bytes
        };
        assert(significant@ =~= crate::analyze::layout::magic_bytes(all@));
        let magic = crate::analyze::image::text_from_bytes(significant)?;
        let tag = read_u32(tag_bytes, 0);
        let n_versions = input.eat_u32()?;
        let meta_offset = input.eat_rva_as_offset(&self.exe)?;
        assert(input.remaining@ =~= all@.skip(16));
        let id = ChunkIdentifier { magic: tag, max_version: n_versions, meta_offset };
        assert(chunk_header(self.exe@, all@) == Ok::<(Seq<char>, ChunkIdentifier), Error>(
            (magic@, id),
        ));
        if !self.chunk_cache.insert(id.packed()) {
            return Err(Error::DuplicateChunk { magic: tag, max_version: n_versions, meta_offset });
        }
        let mut versions: Vec<SpecificChunkVersion<'a>> = Vec::new();
        if meta_offset != 0 {
            let mut meta_input = self.exe.reader_from_offset(meta_offset)?;
            versions = self.parse_chunk_versions(&mut meta_input, n_versions)?;
        }
        if versions.len() == 0 {
            return Err(Error::NoChunks);
        }
        let mut holds_input_references = false;
        let mut i: usize = 0;
        while i < versions.len()
            invariant
                i <= versions@.len(),
                holds_input_references == exists|j: int|
                    0 <= j < i && (#[trigger] versions@[j]).root.model().holds(),
            decreases versions@.len() - i,
        {
            let h = versions[i].root.holds_input_references();
            holds_input_references = holds_input_references || h;
            i += 1;
        }
        proof {
            let vm = versions_model(versions@);
            if holds_input_references {
                let j = choose|j: int|
                    0 <= j < versions@.len() && (#[trigger] versions@[j]).root.model().holds();
                assert(vm[j].root.holds());
            }
            if any_version_holds(vm) {
                let j = choose|j: int| 0 <= j < vm.len() && (#[trigger] vm[j]).root.holds();
                assert(versions@[j].root.model().holds());
            }
        }
        let chunk = Chunk { magic, holds_input_references, versions };
        assert(chunk.deep_view().versions =~= versions_model(chunk.versions@));
        Ok((chunk, CHUNK_DESCRIPTOR_SIZE))
    }

    /// Looks for the next chunk descriptor, in strides of eight bytes, and
    /// gives its chunk; `None` once fewer than eight bytes are left.
    pub fn next(&mut self) -> (r: Option<Chunk<'a>>)
        ensures
            final(self).exe == old(self).exe,
            final(self).max_depth == old(self).max_depth,
            ({
                let step = scan(
                    old(self).exe@,
                    old(self).chunk_cache@,
                    old(self).remaining_bytes@,
                    old(self).max_depth as nat,
                );
                &&& final(self).chunk_cache@ == step.seen
                &&& final(self).remaining_bytes@ == step.rest
                &&& match step.found {
                    Some(chunk) => r is Some && r->Some_0.deep_view() == chunk && versions_exact(
                        r->Some_0.versions@,
                    ),
                    None => r is None,
                }
            }),
    {
        let ghost goal = scan(
            self.exe@,
            self.chunk_cache@,
            self.remaining_bytes@,
            self.max_depth as nat,
        );
        while self.remaining_bytes.len() >= 8
            invariant
                self.exe == old(self).exe,
                self.max_depth == old(self).max_depth,
                goal == scan(
                    old(self).exe@,
                    old(self).chunk_cache@,
                    old(self).remaining_bytes@,
                    old(self).max_depth as nat,
                ),
                goal == scan(
                    self.exe@,
                    self.chunk_cache@,
                    self.remaining_bytes@,
                    self.max_depth as nat,
                ),
            decreases self.remaining_bytes@.len(),
        {
            let all = self.remaining_bytes;
            let ghost seen = self.chunk_cache@;
            if looks_like_descriptor(all) {
                let mut input = Reader { remaining: all };
                match self.parse_chunk(&mut input) {
                    Ok((chunk, len)) => {
                        self.remaining_bytes = &all[len..all.len()];
                        assert(goal.found == Some(chunk.deep_view()));
                        return Some(chunk);
                    },
                    Err(_) => {
                        assert(goal == scan(
                            self.exe@,
                            seen_after(self.exe@, seen, all@),
                            all@.skip(8),
                            self.max_depth as nat,
                        ));
                    },
                }
            } else {
                assert(goal == scan(self.exe@, seen, all@.skip(8), self.max_depth as nat));
            }
            self.remaining_bytes = &all[8..all.len()];
        }
        None
    }
}

/// Tells whether the eight bytes at the front of `all` look like the head of
/// a chunk descriptor: first by the bit pattern, then by the letters.
fn looks_like_descriptor(all: &[u8]) -> (r: bool)
    requires
        all.len() >= 8,
    ensures
        r == is_candidate(all@),
{
    let masked = all[0] & 0xc0 == 0x40 && all[1] & 0xc0 == 0x40 && all[2] & 0xc0 == 0x40 && all[3]
        & 0xc0 == 0x40 && all[5] == 0 && all[6] == 0 && all[7] == 0;
    masked && letter(all[0]) && letter(all[1]) && letter(all[2]) && letter(all[3])
}

/// Tells whether a byte is an ASCII letter.
fn letter(b: u8) -> (r: bool)
    ensures
        r == is_letter(b),
{
    (0x41 <= b && b <= 0x5a) || (0x61 <= b && b <= 0x7a)
}

/// Starts a scan over an executable image for the chunk descriptors that it
/// embeds. [`Parser::next`] gives the chunks one by one.
pub fn locate_chunks<'a>(raw_exe: &'a [u8]) -> (scanner: Parser<'a>)
    requires
        header_ok(raw_exe@),
    ensures
        scanner.exe@ == image_of(raw_exe@),
        scanner.chunk_cache@ == Set::<u128>::empty(),
        scanner.remaining_bytes@ == raw_exe@,
        scanner.max_depth == DEFAULT_MAX_DEPTH,
{
    Parser {
        exe: PE::parse_header(raw_exe),
        chunk_cache: HashSet::new(),
        remaining_bytes: raw_exe,
        max_depth: DEFAULT_MAX_DEPTH,
    }
}

/// Starts a scan over an executable image, if the image has the headers
/// that hold its section table.
pub fn try_locate_chunks<'a>(raw_exe: &'a [u8]) -> (r: Option<Parser<'a>>)
    ensures
        !header_ok(raw_exe@) ==> r is None,
        header_ok(raw_exe@) ==> r is Some && r->Some_0.exe@ == image_of(raw_exe@)
            && r->Some_0.chunk_cache@ == Set::<u128>::empty() && r->Some_0.remaining_bytes@
            == raw_exe@ && r->Some_0.max_depth == DEFAULT_MAX_DEPTH,
{
    if PE::has_valid_header(raw_exe) {
        Some(locate_chunks(raw_exe))
    } else {
        None
    }
}

} // verus!
