use gw2_pf::analyze::image::PE;
use gw2_pf::analyze::layout::BuiltinFieldType;
use gw2_pf::analyze::reader::Reader;
use gw2_pf::analyze::{
    locate_chunks, try_locate_chunks, Error, FieldParseResult, Parser, DEFAULT_MAX_DEPTH,
};
use gw2_pf::structure::{ArrayKind, Field, ReferenceKind, Type};
use std::collections::HashSet;

const BASE: u64 = 0x1_4000_0000;
const VA: u64 = 0x1000;
const FP: usize = 0x200;

const END: u16 = 0;
const FIXED_ARRAY: u16 = 1;
const ARRAY: u16 = 2;
const PTR_ARRAY: u16 = 3;
const BYTE: u16 = 5;
const DWORD: u16 = 10;
const REFERENCE: u16 = 16;
const WIDE_CSTRING: u16 = 18;
const INLINE: u16 = 20;
const VARIANT: u16 = 28;
const STRUCT_COMMON: u16 = 29;
const SMALL_ARRAY: u16 = 33;

struct Image {
    bytes: Vec<u8>,
    next_name: usize,
}

impl Image {
    /// An image with one section, which maps the file from 0x200 on.
    fn new() -> Image {
        let mut bytes = vec![0u8; 0x2000];
        bytes[0x3c] = 0x40;
        bytes[0x40..0x44].copy_from_slice(b"PE\0\0");
        bytes[0x46] = 1;
        bytes[0x54] = 32;
        bytes[0x70..0x78].copy_from_slice(&BASE.to_le_bytes());
        bytes[0x78 + 8..0x78 + 12].copy_from_slice(&0x1e00u32.to_le_bytes());
        bytes[0x78 + 12..0x78 + 16].copy_from_slice(&(VA as u32).to_le_bytes());
        bytes[0x78 + 20..0x78 + 24].copy_from_slice(&(FP as u32).to_le_bytes());
        Image { bytes, next_name: 0x1801 }
    }

    fn addr(at: usize) -> u64 {
        BASE + VA + (at - FP) as u64
    }

    fn put(&mut self, at: usize, bytes: &[u8]) {
        self.bytes[at..at + bytes.len()].copy_from_slice(bytes);
    }

    /// Stores a name, off the stride of the scan, and gives its address.
    fn name(&mut self, text: &str) -> u64 {
        let at = self.next_name;
        self.put(at, text.as_bytes());
        self.next_name = (at + text.len() + 8) / 8 * 8 + 1;
        Image::addr(at)
    }

    fn field(&mut self, at: usize, tag: u16, name: &str, pointer: u64, size: u64) {
        let name = self.name(name);
        self.put(at, &tag.to_le_bytes());
        self.put(at + 8, &name.to_le_bytes());
        self.put(at + 16, &pointer.to_le_bytes());
        self.put(at + 24, &size.to_le_bytes());
    }

    fn descriptor(&mut self, at: usize, magic: &[u8; 4], versions: u32, table: u64) {
        self.put(at, magic);
        self.put(at + 4, &versions.to_le_bytes());
        self.put(at + 8, &table.to_le_bytes());
    }

    fn parser(&self) -> Parser<'_> {
        Parser {
            exe: PE::parse_header(&self.bytes),
            chunk_cache: HashSet::new(),
            remaining_bytes: &[],
            max_depth: DEFAULT_MAX_DEPTH,
        }
    }
}

/// A chunk `ABCD` with two versions, of which the second has a layout.
fn sample() -> Image {
    let mut image = Image::new();
    image.descriptor(0x200, b"ABCD", 2, Image::addr(0x300));
    // version 0: none; version 1: the root at 0x400
    image.put(0x318, &Image::addr(0x400).to_le_bytes());
    image.field(0x400, DWORD, "id", 0, 0);
    image.field(0x420, WIDE_CSTRING, "title", 0, 0);
    image.field(0x440, ARRAY, "items", Image::addr(0x500), 0);
    image.field(0x460, REFERENCE, "next", Image::addr(0x580), 0);
    image.field(0x480, VARIANT, "choice", Image::addr(0x600), 2);
    image.field(0x4a0, END, "Root", 0, 0);
    image.field(0x500, END, "byte", 0, 0);
    image.field(0x580, BYTE, "x", 0, 0);
    image.field(0x5a0, END, "Inner", 0, 0);
    image.put(0x600, &Image::addr(0x580).to_le_bytes());
    image.put(0x608, &Image::addr(0x500).to_le_bytes());
    image
}

fn inner() -> Type<'static> {
    Type::Composite {
        name: "Inner",
        fields: vec![Field { name: "x", _type: Type::U8 }],
        holds_input_references: false,
    }
}

fn root() -> Type<'static> {
    Type::Composite {
        name: "Root",
        fields: vec![
            Field { name: "id", _type: Type::U32 },
            Field { name: "title", _type: Type::CString { wide: true } },
            Field {
                name: "items",
                _type: Type::Array { kind: ArrayKind::Dynamic { size: 0 }, inner: Box::new(Type::U8) },
            },
            Field {
                name: "next",
                _type: Type::Reference { kind: ReferenceKind::Optional, inner: Box::new(inner()) },
            },
            Field {
                name: "choice",
                _type: Type::Variant {
                    variants: vec![inner(), Type::U8],
                    holds_input_references: false,
                },
            },
        ],
        holds_input_references: true,
    }
}

#[test]
fn the_tag_table_is_kept() {
    let table: [(u16, BuiltinFieldType); 28] = [
        (0, BuiltinFieldType::End),
        (1, BuiltinFieldType::FixedArray),
        (2, BuiltinFieldType::Array),
        (3, BuiltinFieldType::PtrArray),
        (5, BuiltinFieldType::Byte),
        (6, BuiltinFieldType::Byte4),
        (7, BuiltinFieldType::Double),
        (10, BuiltinFieldType::DWord),
        (11, BuiltinFieldType::FileName),
        (12, BuiltinFieldType::Float),
        (13, BuiltinFieldType::Float2),
        (14, BuiltinFieldType::Float3),
        (15, BuiltinFieldType::Float4),
        (16, BuiltinFieldType::Reference),
        (17, BuiltinFieldType::QWord),
        (18, BuiltinFieldType::WideCString),
        (19, BuiltinFieldType::CString),
        (20, BuiltinFieldType::Inline),
        (21, BuiltinFieldType::Word),
        (22, BuiltinFieldType::UUID),
        (23, BuiltinFieldType::Byte3),
        (24, BuiltinFieldType::DWord2),
        (25, BuiltinFieldType::DWord4),
        (26, BuiltinFieldType::Word3),
        (27, BuiltinFieldType::FileRef),
        (28, BuiltinFieldType::Variant),
        (29, BuiltinFieldType::StructCommon),
        (33, BuiltinFieldType::SmallArray),
    ];
    for (code, tag) in table {
        assert_eq!(BuiltinFieldType::from_code(code), Ok(tag));
        assert_eq!(tag.code(), code);
    }
    for code in [4u16, 8, 9, 30, 31, 32, 34, 255, 0xffff] {
        assert_eq!(BuiltinFieldType::from_code(code), Err(Error::InvalidFieldType { num: code }));
    }
}

#[test]
fn a_chunk_is_found_with_its_layout() {
    let image = sample();
    let mut scanner = locate_chunks(&image.bytes);
    assert_eq!(scanner.max_depth, DEFAULT_MAX_DEPTH);
    let chunk = scanner.next().unwrap();
    assert_eq!(chunk.magic, "ABCD");
    assert!(chunk.holds_input_references);
    assert_eq!(chunk.versions.len(), 1);
    assert_eq!(chunk.versions[0].version, 1);
    assert_eq!(chunk.versions[0].root, root());
    assert!(scanner.next().is_none());
    assert!(scanner.remaining_bytes.len() < 8);
    assert!(scanner.next().is_none());
}

#[test]
fn an_image_without_headers_is_not_scanned() {
    assert!(try_locate_chunks(&[0u8; 0x400]).is_none());
    assert!(try_locate_chunks(b"MZ").is_none());
    let image = sample();
    let mut scanner = try_locate_chunks(&image.bytes).unwrap();
    assert_eq!(scanner.next().unwrap().magic, "ABCD");
}

#[test]
fn a_second_hit_on_the_same_descriptor_is_a_duplicate() {
    let mut image = sample();
    image.descriptor(0x210, b"ABCD", 2, Image::addr(0x300));
    image.descriptor(0x2f8 - 16, b"ABCD", 2, Image::addr(0x300));
    let mut scanner = locate_chunks(&image.bytes);
    assert!(scanner.next().is_some());
    assert!(scanner.next().is_none());
    assert_eq!(scanner.chunk_cache.len(), 1);

    let mut parser = image.parser();
    let first = parser.parse_chunk(&mut Reader { remaining: &image.bytes[0x200..] });
    assert_eq!(first.unwrap().1, 16);
    let second = parser.parse_chunk(&mut Reader { remaining: &image.bytes[0x210..] });
    assert_eq!(
        second.err(),
        Some(Error::DuplicateChunk {
            magic: gw2_pf::fcc(b"ABCD"),
            max_version: 2,
            meta_offset: 0x300,
        })
    );
    assert_eq!(parser.chunk_cache.len(), 1);
}

#[test]
fn descriptors_that_differ_are_not_duplicates() {
    let mut image = sample();
    image.descriptor(0x210, b"ABCE", 2, Image::addr(0x300));
    image.descriptor(0x220, b"ABCD", 3, Image::addr(0x300));
    image.descriptor(0x230, b"ABCD", 2, Image::addr(0x318));
    let mut scanner = locate_chunks(&image.bytes);
    let magics: Vec<(String, usize)> = std::iter::from_fn(|| scanner.next())
        .map(|c| (c.magic.to_string(), c.versions.len()))
        .collect();
    assert_eq!(
        magics,
        vec![
            ("ABCD".to_string(), 1),
            ("ABCE".to_string(), 1),
            ("ABCD".to_string(), 1),
            ("ABCD".to_string(), 1),
        ]
    );
    assert_eq!(scanner.chunk_cache.len(), 4);
}

#[test]
fn a_descriptor_off_the_stride_is_not_looked_at() {
    let mut image = Image::new();
    image.descriptor(0x204, b"ABCD", 1, Image::addr(0x300));
    image.put(0x300, &Image::addr(0x500).to_le_bytes());
    image.field(0x500, END, "byte", 0, 0);
    let mut scanner = locate_chunks(&image.bytes);
    assert!(scanner.next().is_none());
    let mut parser = image.parser();
    assert!(parser.parse_chunk(&mut Reader { remaining: &image.bytes[0x204..] }).is_ok());
}

#[test]
fn a_tag_must_be_four_letters_and_the_count_small() {
    for (magic, count) in [
        (*b"AB1D", 1u32),
        (*b"ABC\0", 1),
        (*b"AB[D", 1),
        (*b"A`CD", 1),
        (*b"ABC{", 1),
        (*b"@BCD", 1),
        (*b"ABCD", 0x100),
        (*b"ABCD", 0x0100_0000),
    ] {
        let mut image = Image::new();
        image.descriptor(0x200, &magic, count, Image::addr(0x300));
        image.put(0x300, &Image::addr(0x500).to_le_bytes());
        image.field(0x500, END, "byte", 0, 0);
        let mut scanner = locate_chunks(&image.bytes);
        assert!(scanner.next().is_none());
    }
    let mut image = Image::new();
    image.descriptor(0x200, b"azAZ", 2, Image::addr(0x300));
    image.put(0x300, &Image::addr(0x500).to_le_bytes());
    image.field(0x500, END, "byte", 0, 0);
    let mut scanner = locate_chunks(&image.bytes);
    let chunk = scanner.next().unwrap();
    assert_eq!(chunk.magic, "azAZ");
    assert!(!chunk.holds_input_references);
    assert_eq!(chunk.versions[0].root, Type::U8);
}

#[test]
fn a_tag_of_three_letters_ends_at_its_zero() {
    let mut image = Image::new();
    image.descriptor(0x200, b"ABC\0", 1, Image::addr(0x300));
    image.put(0x300, &Image::addr(0x500).to_le_bytes());
    image.field(0x500, END, "dword", 0, 0);
    let mut parser = image.parser();
    let (chunk, len) = parser.parse_chunk(&mut Reader { remaining: &image.bytes[0x200..] }).unwrap();
    assert_eq!(chunk.magic, "ABC");
    assert_eq!(len, 16);
    assert_eq!(chunk.versions[0].root, Type::U32);
}

#[test]
fn a_descriptor_without_a_table_has_no_chunks() {
    let mut image = Image::new();
    image.descriptor(0x200, b"ABCD", 2, 0);
    let mut parser = image.parser();
    let mut input = Reader { remaining: &image.bytes[0x200..] };
    assert_eq!(parser.parse_chunk(&mut input).err(), Some(Error::NoChunks));
    assert_eq!(input.remaining.len(), image.bytes.len() - 0x210);
    assert_eq!(parser.chunk_cache.len(), 1);
    assert_eq!(
        parser.parse_chunk(&mut Reader { remaining: &image.bytes[0x200..] }).err(),
        Some(Error::DuplicateChunk { magic: gw2_pf::fcc(b"ABCD"), max_version: 2, meta_offset: 0 })
    );
}

#[test]
fn a_table_without_a_root_has_no_chunks() {
    let mut image = Image::new();
    image.descriptor(0x200, b"ABCD", 3, Image::addr(0x300));
    let mut parser = image.parser();
    assert_eq!(
        parser.parse_chunk(&mut Reader { remaining: &image.bytes[0x200..] }).err(),
        Some(Error::NoChunks)
    );
    let mut scanner = locate_chunks(&image.bytes);
    assert!(scanner.next().is_none());
    assert_eq!(scanner.chunk_cache.len(), 1);
}

#[test]
fn a_cut_descriptor_is_a_short_read() {
    let image = sample();
    let mut parser = image.parser();
    let cases: [(usize, Error); 5] = [
        (0, Error::DataTooShort { required: 4, actual: 0 }),
        (3, Error::DataTooShort { required: 4, actual: 3 }),
        (6, Error::DataTooShort { required: 4, actual: 2 }),
        (8, Error::DataTooShort { required: 8, actual: 0 }),
        (15, Error::DataTooShort { required: 8, actual: 7 }),
    ];
    for (len, expected) in cases {
        let mut input = Reader { remaining: &image.bytes[0x200..0x200 + len] };
        assert_eq!(parser.parse_chunk(&mut input).err(), Some(expected));
    }
    assert!(parser.chunk_cache.is_empty());
}

#[test]
fn a_candidate_in_the_last_bytes_is_passed_over() {
    let mut image = Image::new();
    let at = image.bytes.len() - 8;
    image.put(at, b"ABCD");
    image.put(at + 4, &1u32.to_le_bytes());
    let mut scanner = locate_chunks(&image.bytes);
    assert!(scanner.next().is_none());
    assert!(scanner.remaining_bytes.is_empty());
}

#[test]
fn a_descriptor_with_an_address_outside_the_image_fails() {
    let mut image = Image::new();
    image.descriptor(0x200, b"ABCD", 1, 5);
    image.descriptor(0x210, b"ABCE", 1, BASE + 0x10_0000);
    image.descriptor(0x220, b"ABCF", 1, BASE + VA + 0x1dff);
    let mut parser = image.parser();
    assert_eq!(
        parser.parse_chunk(&mut Reader { remaining: &image.bytes[0x200..] }).err(),
        Some(Error::RvaOutOfBounds { rva: 5 })
    );
    assert_eq!(
        parser.parse_chunk(&mut Reader { remaining: &image.bytes[0x210..] }).err(),
        Some(Error::NoSectionFound { rva: 0x10_0000 })
    );
    assert!(parser.chunk_cache.is_empty());
    // the last byte of the image: the table does not fit
    assert_eq!(
        parser.parse_chunk(&mut Reader { remaining: &image.bytes[0x220..] }).err(),
        Some(Error::DataTooShort { required: 24, actual: 1 })
    );
    assert_eq!(parser.chunk_cache.len(), 1);
}

#[test]
fn a_tag_that_is_not_text_fails() {
    let mut image = Image::new();
    image.descriptor(0x200, &[0x41, 0xff, 0x41, 0x41], 1, Image::addr(0x300));
    let mut parser = image.parser();
    assert_eq!(
        parser.parse_chunk(&mut Reader { remaining: &image.bytes[0x200..] }).err(),
        Some(Error::DecodingFailed)
    );
}

#[test]
fn versions_without_a_root_are_left_out() {
    let mut image = Image::new();
    image.put(0x300 + 24, &Image::addr(0x500).to_le_bytes());
    image.put(0x300 + 72, &Image::addr(0x520).to_le_bytes());
    image.field(0x500, END, "word", 0, 0);
    image.field(0x520, END, "qword", 0, 0);
    let parser = image.parser();
    let mut input = Reader { remaining: &image.bytes[0x300..] };
    let versions = parser.parse_chunk_versions(&mut input, 5).unwrap();
    assert_eq!(input.remaining.len(), image.bytes.len() - 0x300 - 5 * 24);
    let found: Vec<(u32, &Type)> = versions.iter().map(|v| (v.version, &v.root)).collect();
    assert_eq!(found, vec![(1, &Type::U16), (3, &Type::U64)]);
    let mut input = Reader { remaining: &image.bytes[0x300..] };
    assert!(parser.parse_chunk_versions(&mut input, 0).unwrap().is_empty());
    let mut input = Reader { remaining: &image.bytes[0x300..0x300 + 47] };
    assert_eq!(
        parser.parse_chunk_versions(&mut input, 2).err(),
        Some(Error::DataTooShort { required: 24, actual: 23 })
    );
}

#[test]
fn a_field_list_ends_at_the_descriptor_that_names_the_type() {
    let image = sample();
    let parser = image.parser();
    let mut input = Reader { remaining: &image.bytes[0x580..] };
    match parser.prase_field(&mut input, 1).unwrap() {
        FieldParseResult::Field(field) => assert_eq!(field, Field { name: "x", _type: Type::U8 }),
        FieldParseResult::TypeName(_) => panic!("a field was expected"),
    }
    assert_eq!(input.remaining.len(), image.bytes.len() - 0x5a0);
    match parser.prase_field(&mut input, 1).unwrap() {
        FieldParseResult::TypeName(name) => assert_eq!(name, "Inner"),
        FieldParseResult::Field(_) => panic!("the name of the type was expected"),
    }
    let mut input = Reader { remaining: &image.bytes[0x580..] };
    assert_eq!(parser.parse_type(&mut input, 0), Ok(inner()));
    assert_eq!(input.remaining.len(), image.bytes.len() - 0x5c0);
    assert_eq!(parser.type_at_offset(0x400, 1), Ok(root()));
}

#[test]
fn every_plain_tag_has_its_type() {
    let cases: [(u16, Type); 19] = [
        (5, Type::U8),
        (21, Type::U16),
        (10, Type::U32),
        (17, Type::U64),
        (12, Type::F32),
        (7, Type::F64),
        (11, Type::FileName),
        (27, Type::FileRef),
        (23, Type::inline_array(Type::U8, 3)),
        (6, Type::inline_array(Type::U8, 4)),
        (26, Type::inline_array(Type::U16, 3)),
        (24, Type::inline_array(Type::U32, 2)),
        (25, Type::inline_array(Type::U32, 4)),
        (13, Type::inline_array(Type::F32, 2)),
        (14, Type::inline_array(Type::F32, 3)),
        (15, Type::inline_array(Type::F32, 4)),
        (22, Type::UUID),
        (19, Type::CString { wide: false }),
        (18, Type::CString { wide: true }),
    ];
    for (tag, expected) in cases {
        let mut image = Image::new();
        image.field(0x400, tag, "f", 0, 0);
        let parser = image.parser();
        let mut input = Reader { remaining: &image.bytes[0x400..] };
        match parser.prase_field(&mut input, 0).unwrap() {
            FieldParseResult::Field(field) => assert_eq!(field._type, expected),
            FieldParseResult::TypeName(_) => panic!("a field was expected"),
        }
    }
}

#[test]
fn every_built_in_name_has_its_type() {
    let cases: [(&str, Type); 19] = [
        ("byte", Type::U8),
        ("dword", Type::U32),
        ("word", Type::U16),
        ("qword", Type::U64),
        ("float", Type::F32),
        ("double", Type::F64),
        ("byte3", Type::inline_array(Type::U8, 3)),
        ("byte4", Type::inline_array(Type::U8, 4)),
        ("word3", Type::inline_array(Type::U16, 3)),
        ("dword4", Type::inline_array(Type::U32, 4)),
        ("float2", Type::inline_array(Type::F32, 2)),
        ("float3", Type::inline_array(Type::F32, 3)),
        ("float4", Type::inline_array(Type::F32, 4)),
        ("filename", Type::FileName),
        ("fileref", Type::FileRef),
        ("token", Type::Token),
        ("char *", Type::CString { wide: false }),
        ("wchar *", Type::CString { wide: true }),
        (
            "dword2",
            Type::Composite { name: "dword2", fields: vec![], holds_input_references: false },
        ),
    ];
    for (name, expected) in cases {
        let mut image = Image::new();
        image.field(0x400, END, name, 0, 0);
        let parser = image.parser();
        assert_eq!(parser.type_at_offset(0x400, 0), Ok(expected));
    }
}

#[test]
fn tags_that_point_on_carry_their_kind_and_size() {
    let cases: [(u16, Type); 7] = [
        (FIXED_ARRAY, Type::Array { kind: ArrayKind::Fixed { size: 7 }, inner: Box::new(inner()) }),
        (ARRAY, Type::Array { kind: ArrayKind::Dynamic { size: 7 }, inner: Box::new(inner()) }),
        (
            SMALL_ARRAY,
            Type::Array { kind: ArrayKind::DynamicSmall { size: 7 }, inner: Box::new(inner()) },
        ),
        (PTR_ARRAY, Type::Array { kind: ArrayKind::Pointers { size: 7 }, inner: Box::new(inner()) }),
        (REFERENCE, Type::Reference { kind: ReferenceKind::Optional, inner: Box::new(inner()) }),
        (INLINE, Type::Reference { kind: ReferenceKind::Inline, inner: Box::new(inner()) }),
        (
            STRUCT_COMMON,
            Type::Reference { kind: ReferenceKind::StructCommon, inner: Box::new(inner()) },
        ),
    ];
    for (tag, expected) in cases {
        let mut image = sample();
        image.field(0x700, tag, "f", Image::addr(0x580), 7);
        let parser = image.parser();
        let mut input = Reader { remaining: &image.bytes[0x700..] };
        match parser.prase_field(&mut input, 1).unwrap() {
            FieldParseResult::Field(field) => assert_eq!(field._type, expected),
            FieldParseResult::TypeName(_) => panic!("a field was expected"),
        }
    }
}

#[test]
fn an_unknown_tag_fails_before_its_name_is_read() {
    let mut image = Image::new();
    image.put(0x400, &4u16.to_le_bytes());
    image.put(0x408, &5u64.to_le_bytes());
    let parser = image.parser();
    let mut input = Reader { remaining: &image.bytes[0x400..] };
    assert_eq!(
        parser.prase_field(&mut input, 1).err(),
        Some(Error::InvalidFieldType { num: 4 })
    );
    image.put(0x400, &DWORD.to_le_bytes());
    let parser = image.parser();
    let mut input = Reader { remaining: &image.bytes[0x400..] };
    assert_eq!(parser.prase_field(&mut input, 1).err(), Some(Error::RvaOutOfBounds { rva: 5 }));
}

#[test]
fn a_cut_field_descriptor_is_a_short_read() {
    let image = sample();
    let parser = image.parser();
    let mut input = Reader { remaining: &image.bytes[0x400..0x41f] };
    assert_eq!(
        parser.prase_field(&mut input, 1).err(),
        Some(Error::DataTooShort { required: 32, actual: 31 })
    );
    assert_eq!(input.remaining.len(), 31);
    let mut input = Reader { remaining: &image.bytes[0x580..0x5a0] };
    assert_eq!(
        parser.parse_type(&mut input, 1).err(),
        Some(Error::DataTooShort { required: 32, actual: 0 })
    );
}

#[test]
fn a_variant_without_alternatives_is_empty() {
    let mut image = sample();
    image.field(0x700, VARIANT, "none", Image::addr(0x600), 0);
    let parser = image.parser();
    let mut input = Reader { remaining: &image.bytes[0x700..] };
    match parser.prase_field(&mut input, 1).unwrap() {
        FieldParseResult::Field(field) => assert_eq!(
            field._type,
            Type::Variant { variants: vec![], holds_input_references: false }
        ),
        FieldParseResult::TypeName(_) => panic!("a field was expected"),
    }
}

#[test]
fn a_variant_with_a_text_alternative_borrows() {
    let mut image = sample();
    image.field(0x700, WIDE_CSTRING, "t", 0, 0);
    image.field(0x720, END, "Texts", 0, 0);
    image.put(0x610, &Image::addr(0x700).to_le_bytes());
    image.field(0x780, VARIANT, "some", Image::addr(0x600), 3);
    let parser = image.parser();
    let mut input = Reader { remaining: &image.bytes[0x780..] };
    match parser.prase_field(&mut input, 2).unwrap() {
        FieldParseResult::Field(field) => {
            assert!(field._type.holds_input_references());
            match field._type {
                Type::Variant { variants, holds_input_references } => {
                    assert!(holds_input_references);
                    assert_eq!(variants.len(), 3);
                    assert!(!variants[0].holds_input_references());
                    assert!(variants[2].holds_input_references());
                },
                _ => panic!("a variant was expected"),
            }
        },
        FieldParseResult::TypeName(_) => panic!("a field was expected"),
    }
    // the table ends with the image: a fourth alternative cannot be read
    let mut image = Image::new();
    let last = image.bytes.len() - 8;
    image.field(0x500, END, "byte", 0, 0);
    image.put(last, &Image::addr(0x500).to_le_bytes());
    image.field(0x780, VARIANT, "cut", Image::addr(last), 2);
    let parser = image.parser();
    let mut input = Reader { remaining: &image.bytes[0x780..] };
    assert_eq!(
        parser.prase_field(&mut input, 2).err(),
        Some(Error::DataTooShort { required: 8, actual: 0 })
    );
}

#[test]
fn nesting_is_followed_only_so_deep() {
    let image = sample();
    let mut parser = image.parser();
    assert_eq!(parser.type_at_offset(0x400, 0), Err(Error::NestingTooDeep));
    assert_eq!(parser.type_at_offset(0x400, 1), Ok(root()));
    parser.max_depth = 0;
    assert_eq!(
        parser.parse_chunk(&mut Reader { remaining: &image.bytes[0x200..] }).err(),
        Some(Error::NestingTooDeep)
    );
}

#[test]
fn a_type_that_refers_to_itself_is_given_up() {
    let mut image = Image::new();
    image.descriptor(0x200, b"LOOP", 1, Image::addr(0x300));
    image.put(0x300, &Image::addr(0x400).to_le_bytes());
    image.field(0x400, REFERENCE, "again", Image::addr(0x400), 0);
    image.field(0x420, END, "Knot", 0, 0);
    let mut parser = image.parser();
    assert_eq!(
        parser.parse_chunk(&mut Reader { remaining: &image.bytes[0x200..] }).err(),
        Some(Error::NestingTooDeep)
    );
    let mut scanner = locate_chunks(&image.bytes);
    assert!(scanner.next().is_none());
}

#[test]
fn a_pointer_to_nowhere_fails() {
    let mut image = Image::new();
    image.field(0x400, ARRAY, "a", BASE + VA + 0x1e00 - 1 + 0x100, 0);
    image.field(0x440, ARRAY, "b", 0, 0);
    let parser = image.parser();
    let mut input = Reader { remaining: &image.bytes[0x400..] };
    assert_eq!(
        parser.prase_field(&mut input, 1).err(),
        Some(Error::NoSectionFound { rva: VA + 0x1e00 - 1 + 0x100 })
    );
    // the null pointer leads to the start of the image
    let mut input = Reader { remaining: &image.bytes[0x440..] };
    match parser.prase_field(&mut input, 1).unwrap() {
        FieldParseResult::Field(field) => assert_eq!(
            field._type,
            Type::Array {
                kind: ArrayKind::Dynamic { size: 0 },
                inner: Box::new(Type::Composite {
                    name: "",
                    fields: vec![],
                    holds_input_references: false,
                }),
            }
        ),
        FieldParseResult::TypeName(_) => panic!("a field was expected"),
    }
    assert_eq!(parser.type_at_offset(0x2000, 1), Err(Error::OffsetOutOfBounds { offset: 0x2000 }));
}

#[test]
fn a_composite_of_scalars_does_not_borrow() {
    let fields = vec![
        Field { name: "a", _type: Type::U8 },
        Field { name: "b", _type: Type::U64 },
        Field { name: "c", _type: Type::F32 },
        Field { name: "d", _type: Type::UUID },
        Field { name: "e", _type: Type::Token },
    ];
    let composite = Type::composite("Plain", fields);
    assert!(!composite.holds_input_references());
    assert!(!Type::composite("Empty", vec![]).holds_input_references());
}

#[test]
fn a_composite_with_a_text_borrows() {
    let narrow = Type::composite("N", vec![Field { name: "t", _type: Type::CString { wide: false } }]);
    assert!(narrow.holds_input_references());
    let wide = Type::composite(
        "W",
        vec![
            Field { name: "a", _type: Type::U32 },
            Field { name: "t", _type: Type::CString { wide: true } },
        ],
    );
    assert_eq!(
        wide,
        Type::Composite {
            name: "W",
            fields: vec![
                Field { name: "a", _type: Type::U32 },
                Field { name: "t", _type: Type::CString { wide: true } },
            ],
            holds_input_references: true,
        }
    );
}

#[test]
fn a_composite_with_a_byte_array_borrows() {
    for kind in [
        ArrayKind::Dynamic { size: 0 },
        ArrayKind::DynamicSmall { size: 0 },
        ArrayKind::Pointers { size: 0 },
        ArrayKind::Inline { size: 4 },
        ArrayKind::Fixed { size: 4 },
    ] {
        let bytes = Type::Array { kind, inner: Box::new(Type::U8) };
        assert!(bytes.holds_input_references());
        let composite = Type::composite("B", vec![Field { name: "data", _type: bytes }]);
        assert!(composite.holds_input_references());
    }
    let words = Type::Array { kind: ArrayKind::Dynamic { size: 0 }, inner: Box::new(Type::U16) };
    assert!(!words.holds_input_references());
    assert!(!Type::composite("W", vec![Field { name: "data", _type: words }]).holds_input_references());
}

#[test]
fn a_composite_with_a_flagged_member_borrows() {
    let text = Type::composite("T", vec![Field { name: "t", _type: Type::CString { wide: true } }]);
    let outer = Type::composite("O", vec![Field { name: "inner", _type: text }]);
    assert!(outer.holds_input_references());
    let plain = Type::composite("P", vec![Field { name: "n", _type: Type::U32 }]);
    let outer = Type::composite("O", vec![Field { name: "inner", _type: plain }]);
    assert!(!outer.holds_input_references());
}

#[test]
fn borrowing_passes_through_references_arrays_and_variants() {
    let text = || Type::composite("T", vec![Field { name: "t", _type: Type::CString { wide: true } }]);
    let reference = Type::Reference { kind: ReferenceKind::Inline, inner: Box::new(text()) };
    assert!(reference.holds_input_references());
    let array = Type::Array { kind: ArrayKind::Fixed { size: 2 }, inner: Box::new(text()) };
    assert!(array.holds_input_references());
    let either = Type::variant(vec![Type::U32, text()]);
    assert!(either.holds_input_references());
    let neither = Type::variant(vec![Type::U32, Type::FileName]);
    assert!(!neither.holds_input_references());
    assert!(!Type::variant(vec![]).holds_input_references());
    let deep = Type::composite(
        "D",
        vec![Field {
            name: "r",
            _type: Type::Reference {
                kind: ReferenceKind::Optional,
                inner: Box::new(Type::Array {
                    kind: ArrayKind::Dynamic { size: 0 },
                    inner: Box::new(either),
                }),
            },
        }],
    );
    assert!(deep.holds_input_references());
}

#[test]
fn an_inline_array_keeps_its_size() {
    assert_eq!(
        Type::inline_array(Type::F32, 3),
        Type::Array { kind: ArrayKind::Inline { size: 3 }, inner: Box::new(Type::F32) }
    );
    assert!(!Type::inline_array(Type::F32, 3).holds_input_references());
    assert!(Type::inline_array(Type::U8, 3).holds_input_references());
}
