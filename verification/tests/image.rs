use gw2_pf::analyze::image::{text_from_bytes, PESection, PE};
use gw2_pf::analyze::reader::Reader;
use gw2_pf::analyze::Error;

const BASE: u64 = 0x1_4000_0000;

fn put(image: &mut [u8], at: usize, bytes: &[u8]) {
    image[at..at + bytes.len()].copy_from_slice(bytes);
}

/// An image of `len` bytes with headers at 0x40 and the given sections.
fn image(len: usize, announced: u16, sections: &[(u32, u32, u32)]) -> Vec<u8> {
    let mut image = vec![0u8; len];
    put(&mut image, 0x3c, &0x40u32.to_le_bytes());
    put(&mut image, 0x40, b"PE\0\0");
    put(&mut image, 0x46, &announced.to_le_bytes());
    put(&mut image, 0x54, &32u16.to_le_bytes());
    put(&mut image, 0x58 + 24, &BASE.to_le_bytes());
    for (i, (va, size, fp)) in sections.iter().enumerate() {
        let at = 0x78 + 40 * i;
        put(&mut image, at + 8, &size.to_le_bytes());
        put(&mut image, at + 12, &va.to_le_bytes());
        put(&mut image, at + 20, &fp.to_le_bytes());
    }
    image
}

fn one_section() -> PE<'static> {
    PE {
        raw_exe: &[],
        base_addr: BASE,
        sections: vec![PESection {
            virtual_address: 0x1000,
            virtual_size: 0x200,
            ptr_to_raw_data: 0x400,
        }],
    }
}

#[test]
fn the_headers_are_found() {
    let raw = image(0x200, 2, &[(0x1000, 0x800, 0x200), (0x2000, 0x100, 0xa00)]);
    assert!(PE::has_valid_header(&raw));
    let pe = PE::parse_header(&raw);
    assert_eq!(pe.base_addr, BASE);
    assert_eq!(
        pe.sections,
        vec![
            PESection { virtual_address: 0x1000, virtual_size: 0x800, ptr_to_raw_data: 0x200 },
            PESection { virtual_address: 0x2000, virtual_size: 0x100, ptr_to_raw_data: 0xa00 },
        ]
    );
    assert_eq!(pe.raw_exe.len(), 0x200);
}

#[test]
fn an_image_without_its_headers_is_told_apart() {
    assert!(!PE::has_valid_header(&[]));
    assert!(!PE::has_valid_header(&[0u8; 0x3f]));
    let good = image(0x200, 0, &[]);
    assert!(PE::has_valid_header(&good));
    let mut bad = good.clone();
    bad[0x41] = b'F';
    assert!(!PE::has_valid_header(&bad));
    let mut bad = good.clone();
    put(&mut bad, 0x54, &31u16.to_le_bytes());
    assert!(!PE::has_valid_header(&bad));
    let mut bad = good.clone();
    put(&mut bad, 0x54, &0x200u16.to_le_bytes());
    assert!(!PE::has_valid_header(&bad));
    let mut bad = good.clone();
    put(&mut bad, 0x3c, &0x1f0u32.to_le_bytes());
    assert!(!PE::has_valid_header(&bad));
    let mut bad = good.clone();
    put(&mut bad, 0x3c, &0xffff_fff0u32.to_le_bytes());
    assert!(!PE::has_valid_header(&bad));
    assert!(PE::has_valid_header(&good[..0x78]));
    assert!(!PE::has_valid_header(&good[..0x77]));
}

#[test]
fn the_headers_are_read_only_if_they_are_there() {
    let raw = image(0x200, 1, &[(0x1000, 0x800, 0x200)]);
    let pe = PE::try_parse_header(&raw).unwrap();
    assert_eq!(pe.sections.len(), 1);
    assert_eq!(pe.base_addr, BASE);
    assert!(PE::try_parse_header(&raw[..0x60]).is_none());
    assert!(PE::try_parse_header(&[]).is_none());
}

#[test]
fn no_more_than_32_sections_are_recorded() {
    let sections: Vec<(u32, u32, u32)> =
        (0..40).map(|i| (0x1000 * (i + 1), 0x1000, 0x400 * (i + 1))).collect();
    let raw = image(0x78 + 40 * 40, 40, &sections);
    let pe = PE::parse_header(&raw);
    assert_eq!(pe.sections.len(), 32);
    assert_eq!(pe.sections[31].virtual_address, 0x20000);
}

#[test]
fn sections_beyond_the_end_of_the_image_are_not_recorded() {
    let sections = [(0x1000, 0x100, 0x200), (0x2000, 0x100, 0x300), (0x3000, 0x100, 0x400)];
    let raw = image(0x78 + 40 * 3, 3, &sections);
    let pe = PE::parse_header(&raw[..0x78 + 40 * 2 + 39]);
    assert_eq!(pe.sections.len(), 2);
    let pe = PE::parse_header(&raw);
    assert_eq!(pe.sections.len(), 3);
    let mut fewer = raw.clone();
    put(&mut fewer, 0x46, &1u16.to_le_bytes());
    assert_eq!(PE::parse_header(&fewer).sections.len(), 1);
}

#[test]
fn an_address_in_a_section_is_translated() {
    let pe = one_section();
    assert_eq!(pe.translate_rva_to_bin_offset(0x1050), Ok(0x450));
    assert_eq!(pe.translate_rva_to_bin_offset(0x1000), Ok(0x400));
    assert_eq!(pe.translate_rva_to_bin_offset(0x11ff), Ok(0x5ff));
}

#[test]
fn an_address_in_no_section_is_not_found() {
    let pe = one_section();
    assert_eq!(pe.translate_rva_to_bin_offset(0x2000), Err(Error::NoSectionFound { rva: 0x2000 }));
    assert_eq!(pe.translate_rva_to_bin_offset(0x1200), Err(Error::NoSectionFound { rva: 0x1200 }));
    assert_eq!(pe.translate_rva_to_bin_offset(0xfff), Err(Error::NoSectionFound { rva: 0xfff }));
    let none = PE { raw_exe: &[], base_addr: 0, sections: vec![] };
    assert_eq!(none.translate_rva_to_bin_offset(0), Err(Error::NoSectionFound { rva: 0 }));
}

#[test]
fn the_first_section_that_covers_an_address_wins() {
    let pe = PE {
        raw_exe: &[],
        base_addr: 0,
        sections: vec![
            PESection { virtual_address: 0x3000, virtual_size: 0x10, ptr_to_raw_data: 0x10 },
            PESection { virtual_address: 0x1000, virtual_size: 0x100, ptr_to_raw_data: 0x400 },
            PESection { virtual_address: 0x1080, virtual_size: 0x100, ptr_to_raw_data: 0x900 },
        ],
    };
    assert_eq!(pe.translate_rva_to_bin_offset(0x1090), Ok(0x490));
    assert_eq!(pe.translate_rva_to_bin_offset(0x1100), Ok(0x980));
    assert_eq!(pe.translate_rva_to_bin_offset(0x3008), Ok(0x18));
}

#[test]
fn a_large_section_does_not_overflow() {
    let pe = PE {
        raw_exe: &[],
        base_addr: 0,
        sections: vec![PESection {
            virtual_address: 0xffff_ff00,
            virtual_size: 0xffff_ffff,
            ptr_to_raw_data: 0xffff_ffff,
        }],
    };
    assert_eq!(pe.translate_rva_to_bin_offset(0x1_0000_0000), Ok(0x1_0000_00ff));
}

#[test]
fn stored_addresses_are_counted_from_the_image_base() {
    let pe = one_section();
    assert_eq!(pe.offset_of_address(0), Ok(0));
    assert_eq!(pe.offset_of_address(BASE + 0x1050), Ok(0x450));
    assert_eq!(pe.offset_of_address(BASE - 1), Err(Error::RvaOutOfBounds { rva: BASE - 1 }));
    assert_eq!(pe.offset_of_address(1), Err(Error::RvaOutOfBounds { rva: 1 }));
    assert_eq!(pe.offset_of_address(BASE), Err(Error::NoSectionFound { rva: 0 }));
    assert_eq!(pe.offset_of_address(BASE + 0x3000), Err(Error::NoSectionFound { rva: 0x3000 }));
}

#[test]
fn a_text_ends_at_its_zero_byte() {
    let raw = b"..name\0rest\0";
    let pe = PE { raw_exe: raw, base_addr: 0, sections: vec![] };
    assert_eq!(pe.get_str_at(2), Ok("name"));
    assert_eq!(pe.get_str_at(4), Ok("me"));
    assert_eq!(pe.get_str_at(6), Ok(""));
    assert_eq!(pe.get_str_at(7), Ok("rest"));
}

#[test]
fn a_text_outside_the_image_fails() {
    let raw = b"ab\0cd";
    let pe = PE { raw_exe: raw, base_addr: 0, sections: vec![] };
    assert_eq!(pe.get_str_at(5), Err(Error::OffsetOutOfBounds { offset: 5 }));
    assert_eq!(pe.get_str_at(u64::MAX), Err(Error::OffsetOutOfBounds { offset: u64::MAX }));
    assert_eq!(pe.get_str_at(3), Err(Error::OffsetOutOfBounds { offset: 5 }));
}

#[test]
fn a_text_that_is_not_utf8_fails() {
    let raw = [b'a', 0xff, b'b', 0, 0xc3, 0xa9, 0];
    let pe = PE { raw_exe: &raw, base_addr: 0, sections: vec![] };
    assert_eq!(pe.get_str_at(0), Err(Error::DecodingFailed));
    assert_eq!(pe.get_str_at(2), Ok("b"));
    assert_eq!(pe.get_str_at(4), Ok("\u{e9}"));
    assert_eq!(pe.get_str_at(5), Err(Error::DecodingFailed));
}

#[test]
fn bytes_become_text_only_if_they_are_utf8() {
    assert_eq!(text_from_bytes(b"dword"), Ok("dword"));
    assert_eq!(text_from_bytes(&[]), Ok(""));
    assert_eq!(text_from_bytes(&[0x80]), Err(Error::DecodingFailed));
    assert_eq!(text_from_bytes(&[0xe2, 0x82]), Err(Error::DecodingFailed));
}

#[test]
fn a_reader_starts_at_an_offset() {
    let raw = [1u8, 2, 3, 4];
    let pe = PE { raw_exe: &raw, base_addr: 0, sections: vec![] };
    assert_eq!(pe.reader_from_offset(1).unwrap().remaining, &[2, 3, 4]);
    assert_eq!(pe.reader_from_offset(0).unwrap().remaining, &[1, 2, 3, 4]);
    assert_eq!(pe.reader_from_offset(4).err(), Some(Error::OffsetOutOfBounds { offset: 4 }));
    assert_eq!(pe.reader_from_offset(1 << 40).err(), Some(Error::OffsetOutOfBounds { offset: 1 << 40 }));
}

#[test]
fn a_reader_shrinks_as_it_is_read() {
    let raw = [1u8, 0, 2, 0, 0, 0, 3, 0, 0, 0, 0, 0, 0, 0, 9, 8, 7];
    let mut reader = Reader { remaining: &raw };
    assert_eq!(reader.eat_u16(), Ok(1));
    assert_eq!(reader.eat_u32(), Ok(2));
    assert_eq!(reader.eat_u64(), Ok(3));
    let mut head = reader.eat_slice(2).unwrap();
    assert_eq!(head.remaining, &[9, 8]);
    assert_eq!(reader.remaining, &[7]);
    assert_eq!(head.eat_u16(), Ok(0x0809));
    assert!(head.remaining.is_empty());
}

#[test]
fn a_reader_fails_on_a_short_read_and_stays() {
    let raw = [1u8, 2, 3];
    let mut reader = Reader { remaining: &raw };
    assert_eq!(reader.eat_u32(), Err(Error::DataTooShort { required: 4, actual: 3 }));
    assert_eq!(reader.eat_u64(), Err(Error::DataTooShort { required: 8, actual: 3 }));
    assert_eq!(reader.eat_slice(4).err(), Some(Error::DataTooShort { required: 4, actual: 3 }));
    assert_eq!(reader.remaining.len(), 3);
    assert_eq!(reader.eat_u16(), Ok(0x0201));
    assert_eq!(reader.eat_u16(), Err(Error::DataTooShort { required: 2, actual: 1 }));
    assert!(reader.eat_slice(1).is_ok());
    assert!(reader.eat_slice(0).is_ok());
}

#[test]
fn a_reader_resolves_stored_addresses() {
    let pe = one_section();
    let mut raw = Vec::new();
    raw.extend_from_slice(&(BASE + 0x1008).to_le_bytes());
    raw.extend_from_slice(&0u64.to_le_bytes());
    raw.extend_from_slice(&5u64.to_le_bytes());
    raw.extend_from_slice(&[1, 2, 3]);
    let mut reader = Reader { remaining: &raw };
    assert_eq!(reader.eat_rva_as_offset(&pe), Ok(0x408));
    assert_eq!(reader.eat_rva_as_offset(&pe), Ok(0));
    assert_eq!(reader.eat_rva_as_offset(&pe), Err(Error::RvaOutOfBounds { rva: 5 }));
    assert_eq!(reader.remaining.len(), 3);
    assert_eq!(reader.eat_rva_as_offset(&pe), Err(Error::DataTooShort { required: 8, actual: 3 }));
    assert_eq!(reader.remaining.len(), 3);
}
