//! The part of an executable image that address translation needs: the image
//! base and the section table.

use vstd::prelude::*;
use vstd::string::StringSliceAdditionalSpecFns;
use crate::analyze::Error;
use crate::bytes::{read_u16, read_u32, read_u64, u16_at, u32_at, u64_at};

verus! {

/// The most sections that are recorded.
pub const MAX_SECTIONS: usize = 32;

/// The size of one entry of the section table.
pub const SECTION_ENTRY_SIZE: usize = 40;

/// Where a section lies in memory and in the file.
#[derive(Debug, Clone, Copy, PartialEq, Eq, Structural)]
pub struct PESection {
    pub virtual_address: u32,
    pub virtual_size: u32,
    pub ptr_to_raw_data: u32,
}

/// The mathematical value of a [`PE`].
pub struct ImageView {
    pub bytes: Seq<u8>,
    pub base: u64,
    pub sections: Seq<PESection>,
}

/// An executable image with its base address and section table.
pub struct PE<'a> {
    pub raw_exe: &'a [u8],
    pub base_addr: u64,
    pub sections: Vec<PESection>,
}

impl<'a> View for PE<'a> {
    type V = ImageView;

    open spec fn view(&self) -> ImageView {
        ImageView { bytes: self.raw_exe@, base: self.base_addr, sections: self.sections@ }
    }
}

/// The section covers the relative address.
pub open spec fn section_contains(s: PESection, rva: int) -> bool {
    s.virtual_address <= rva < s.virtual_address + s.virtual_size
}

/// The file offset of `rva` by the first section at or after index `from`
/// that covers it.
pub open spec fn translate_from(sections: Seq<PESection>, rva: int, from: int) -> Option<int>
    decreases sections.len() - from,
{
    if from < 0 || from >= sections.len() {
        None
    } else if section_contains(sections[from], rva) {
        Some(rva - sections[from].virtual_address + sections[from].ptr_to_raw_data)
    } else {
        translate_from(sections, rva, from + 1)
    }
}

/// The translation goes by the first section, from index `from` on, that
/// covers the address, and there is none only if no section covers it.
pub proof fn lemma_translate_goes_by_first_cover(sections: Seq<PESection>, rva: int, from: int)
    requires
        0 <= from,
    ensures
        match translate_from(sections, rva, from) {
            Some(offset) => exists|i: int|
                from <= i < sections.len() && section_contains(#[trigger] sections[i], rva)
                    && offset == rva - sections[i].virtual_address + sections[i].ptr_to_raw_data
                    && forall|j: int| from <= j < i ==> !section_contains(#[trigger] sections[j], rva),
            None => forall|i: int|
                from <= i < sections.len() ==> !section_contains(#[trigger] sections[i], rva),
        },
    decreases sections.len() - from,
{
    if from < sections.len() {
        if section_contains(sections[from], rva) {
            assert(section_contains(sections[from], rva));
        } else {
            lemma_translate_goes_by_first_cover(sections, rva, from + 1);
            match translate_from(sections, rva, from + 1) {
                Some(offset) => {
                    let i = choose|i: int|
                        from + 1 <= i < sections.len() && section_contains(
                            #[trigger] sections[i],
                            rva,
                        ) && offset == rva - sections[i].virtual_address
                            + sections[i].ptr_to_raw_data && forall|j: int|
                            from + 1 <= j < i ==> !section_contains(#[trigger] sections[j], rva);
                    assert forall|j: int| from <= j < i implies !section_contains(
                        #[trigger] sections[j],
                        rva,
                    ) by {}
                },
                None => {
                    assert forall|i: int| from <= i < sections.len() implies !section_contains(
                        #[trigger] sections[i],
                        rva,
                    ) by {}
                },
            }
        }
    }
}

/// The file offset of a relative address, or the error for an address that
/// no section covers.
pub open spec fn translate(sections: Seq<PESection>, rva: int) -> Result<u64, Error> {
    match translate_from(sections, rva, 0) {
        Some(offset) => Ok(offset as u64),
        None => Err(Error::NoSectionFound { rva: rva as u64 }),
    }
}

/// The file offset that a stored 64-bit address stands for: zero for the
/// null address, else the translation of its distance from the image base.
pub open spec fn rva_to_offset(image: ImageView, address: u64) -> Result<u64, Error> {
    if address == 0 {
        Ok(0)
    } else if address < image.base {
        Err(Error::RvaOutOfBounds { rva: address })
    } else {
        translate(image.sections, address - image.base)
    }
}

/// The index of the first zero byte at or after `at`.
pub open spec fn first_nul(bytes: Seq<u8>, at: int) -> Option<int>
    decreases bytes.len() - at,
{
    if at < 0 || at >= bytes.len() {
        None
    } else if bytes[at] == 0 {
        Some(at)
    } else {
        first_nul(bytes, at + 1)
    }
}

/// What [`first_nul`] finds is a zero byte within the image, and no byte
/// from `at` up to it is zero.
pub proof fn lemma_first_nul(bytes: Seq<u8>, at: int)
    requires
        0 <= at,
    ensures
        match first_nul(bytes, at) {
            Some(end) => at <= end < bytes.len() && bytes[end] == 0 && forall|i: int|
                at <= i < end ==> bytes[i] != 0,
            None => forall|i: int| at <= i < bytes.len() ==> bytes[i] != 0,
        },
    decreases bytes.len() - at,
{
    if at < bytes.len() && bytes[at] != 0 {
        lemma_first_nul(bytes, at + 1);
    }
}

/// The bytes of the zero-terminated string that starts at `offset`.
pub open spec fn str_bytes_at(bytes: Seq<u8>, offset: u64) -> Result<Seq<u8>, Error> {
    if bytes.len() <= offset {
        Err(Error::OffsetOutOfBounds { offset })
    } else {
        match first_nul(bytes, offset as int) {
            Some(end) => Ok(bytes.subrange(offset as int, end)),
            None => Err(Error::OffsetOutOfBounds { offset: bytes.len() as u64 }),
        }
    }
}

/// The zero-terminated text that starts at `offset`.
pub open spec fn text_at(bytes: Seq<u8>, offset: u64) -> Result<Seq<char>, Error> {
    match str_bytes_at(bytes, offset) {
        Err(e) => Err(e),
        Ok(b) => if vstd::utf8::valid_utf8(b) {
            Ok(vstd::utf8::decode_utf8(b))
        } else {
            Err(Error::DecodingFailed)
        },
    }
}

/// Where the extended header starts, as the legacy header says.
pub open spec fn signature_offset(bytes: Seq<u8>) -> int {
    u32_at(bytes, 0x3c)
}

/// The size of the optional header.
pub open spec fn optional_header_size(bytes: Seq<u8>) -> int {
    u16_at(bytes, signature_offset(bytes) + 20)
}

/// Where the optional header starts.
pub open spec fn optional_header_start(bytes: Seq<u8>) -> int {
    signature_offset(bytes) + 24
}

/// Where the section table starts.
pub open spec fn section_table_start(bytes: Seq<u8>) -> int {
    optional_header_start(bytes) + optional_header_size(bytes)
}

/// The number of sections that the header announces.
pub open spec fn announced_sections(bytes: Seq<u8>) -> int {
    u16_at(bytes, signature_offset(bytes) + 6)
}

/// The headers that translation needs are present: the legacy header, the
/// signature `PE\0\0`, the file header, and an optional header long enough
/// to hold the image base.
pub open spec fn header_ok(bytes: Seq<u8>) -> bool {
    &&& bytes.len() >= 0x40
    &&& signature_offset(bytes) + 24 <= bytes.len()
    &&& bytes[signature_offset(bytes)] == 0x50
    &&& bytes[signature_offset(bytes) + 1] == 0x45
    &&& bytes[signature_offset(bytes) + 2] == 0
    &&& bytes[signature_offset(bytes) + 3] == 0
    &&& optional_header_size(bytes) >= 32
    &&& section_table_start(bytes) <= bytes.len()
}

/// The number of sections that are recorded: those announced, as far as the
/// table lies within the image, and no more than [`MAX_SECTIONS`].
pub open spec fn recorded_sections(bytes: Seq<u8>) -> int {
    let whole = (bytes.len() - section_table_start(bytes)) / 40;
    let wanted = if announced_sections(bytes) < 32 {
        announced_sections(bytes)
    } else {
        32
    };
    if wanted < whole {
        wanted
    } else {
        whole
    }
}

/// The section described by the table entry that starts at `at`.
pub open spec fn section_at(bytes: Seq<u8>, at: int) -> PESection {
    PESection {
        virtual_size: u32_at(bytes, at + 8) as u32,
        virtual_address: u32_at(bytes, at + 12) as u32,
        ptr_to_raw_data: u32_at(bytes, at + 20) as u32,
    }
}

/// What the headers of an image say, for an image whose headers are present.
pub open spec fn image_of(bytes: Seq<u8>) -> ImageView {
    ImageView {
        bytes,
        base: u64_at(bytes, optional_header_start(bytes) + 24) as u64,
        sections: Seq::new(
            recorded_sections(bytes) as nat,
            |i: int| section_at(bytes, section_table_start(bytes) + 40 * i),
        ),
    }
}

/// Checks a byte slice for UTF-8 with `core::str::from_utf8` and borrows it
/// as text. The result is `Some` exactly for valid UTF-8, and the text then
/// has the given bytes as its encoding.
#[verifier::external_body]
fn text_of<'a>(bytes: &'a [u8]) -> (r: Option<&'a str>)
    ensures
        r is Some <==> vstd::utf8::valid_utf8(bytes@),
        r is Some ==> r->Some_0.spec_bytes() == bytes@,
{
    match core::str::from_utf8(bytes) {
        Ok(s) => Some(s),
        Err(_) => None,
    }
}

/// Borrows `bytes` as text, if they are valid UTF-8.
pub fn text_from_bytes<'a>(bytes: &'a [u8]) -> (r: Result<&'a str, Error>)
    ensures
        match r {
            Ok(s) => vstd::utf8::valid_utf8(bytes@) && s@ == vstd::utf8::decode_utf8(bytes@),
            Err(e) => !vstd::utf8::valid_utf8(bytes@) && e == Error::DecodingFailed,
        },
{
    match text_of(bytes) {
        Some(s) => {
            proof {
                vstd::utf8::encode_utf8_decode_utf8(s@);
            }
            Ok(s)
        },
        None => Err(Error::DecodingFailed),
    }
}

impl<'a> PE<'a> {
    /// Tells whether the headers that [`PE::parse_header`] reads are present.
    pub fn has_valid_header(raw_exe: &[u8]) -> (ok: bool)
        ensures
            ok == header_ok(raw_exe@),
    {
        if raw_exe.len() < 0x40 {
            return false;
        }
        let sig = read_u32(raw_exe, 0x3c) as u64;
        let len = raw_exe.len() as u64;
        if sig + 24 > len {
            return false;
        }
        let s = sig as usize;
        if raw_exe[s] != 0x50 || raw_exe[s + 1] != 0x45 || raw_exe[s + 2] != 0 || raw_exe[s + 3]
            != 0 {
            return false;
        }
        let opt_size = read_u16(raw_exe, s + 20) as u64;
        opt_size >= 32 && sig + 24 + opt_size <= len
    }

    /// Reads the image base and the section table.
    pub fn parse_header(raw_exe: &'a [u8]) -> (pe: Self)
        requires
            header_ok(raw_exe@),
        ensures
            pe@ == image_of(raw_exe@),
            pe.raw_exe@ == raw_exe@,
            pe.sections@.len() <= MAX_SECTIONS,
    {
        let len = raw_exe.len();
        let sig = read_u32(raw_exe, 0x3c) as usize;
        let n_sections = read_u16(raw_exe, sig + 6) as usize;
        let opt_size = read_u16(raw_exe, sig + 20) as usize;
        let opt_start = sig + 24;
        let table = opt_start + opt_size;
        let base_addr = read_u64(raw_exe, opt_start + 24);
        let whole = (len - table) / SECTION_ENTRY_SIZE;
        let wanted = if n_sections < MAX_SECTIONS {
            n_sections
        } else {
            MAX_SECTIONS
        };
        let count = if wanted < whole {
            wanted
        } else {
            whole
        };
        let mut sections: Vec<PESection> = Vec::new();
        let mut i: usize = 0;
        while i < count
            invariant
                i <= count <= MAX_SECTIONS,
                count <= whole,
                whole == (len - table) / 40,
                table <= len,
                len == raw_exe.len(),
                table == section_table_start(raw_exe@),
                sections@.len() == i,
                forall|j: int|
                    0 <= j < i ==> sections@[j] == section_at(raw_exe@, table + 40 * j),
            decreases count - i,
        {
            let at = table + SECTION_ENTRY_SIZE * i;
            let section = PESection {
                virtual_size: read_u32(raw_exe, at + 8),
                virtual_address: read_u32(raw_exe, at + 12),
                ptr_to_raw_data: read_u32(raw_exe, at + 20),
            };
            sections.push(section);
            i += 1;
        }
        let pe = PE { raw_exe, base_addr, sections };
        assert(pe@.sections =~= image_of(raw_exe@).sections);
        pe
    }

    /// Reads the image base and the section table, if the headers that hold
    /// them are present.
    pub fn try_parse_header(raw_exe: &'a [u8]) -> (r: Option<Self>)
        ensures
            header_ok(raw_exe@) ==> r is Some && r->Some_0@ == image_of(raw_exe@)
                && r->Some_0.sections@.len() <= MAX_SECTIONS,
            !header_ok(raw_exe@) ==> r is None,
    {
        if PE::has_valid_header(raw_exe) {
            Some(PE::parse_header(raw_exe))
        } else {
            None
        }
    }

    /// Translates a relative address to a file offset by the first section
    /// that covers it.
    pub fn translate_rva_to_bin_offset(&self, rva: u64) -> (r: Result<u64, Error>)
        ensures
            r == translate(self@.sections, rva as int),
    {
        let mut i: usize = 0;
        while i < self.sections.len()
            invariant
                i <= self.sections@.len(),
                translate_from(self.sections@, rva as int, 0) == translate_from(
                    self.sections@,
                    rva as int,
                    i as int,
                ),
            decreases self.sections@.len() - i,
        {
            let section = self.sections[i];
            let start = section.virtual_address as u64;
            let end = start + section.virtual_size as u64;
            if rva >= start && rva < end {
                return Ok(rva - start + section.ptr_to_raw_data as u64);
            }
            i += 1;
        }
        Err(Error::NoSectionFound { rva })
    }

    /// Turns a stored 64-bit address into a file offset; the null address
    /// gives offset zero.
    pub fn offset_of_address(&self, address: u64) -> (r: Result<u64, Error>)
        ensures
            r == rva_to_offset(self@, address),
    {
        if address == 0 {
            return Ok(0);
        }
        if address < self.base_addr {
            return Err(Error::RvaOutOfBounds { rva: address });
        }
        self.translate_rva_to_bin_offset(address - self.base_addr)
    }

    /// Borrows the zero-terminated text at a file offset.
    pub fn get_str_at(&self, offset: u64) -> (r: Result<&'a str, Error>)
        ensures
            match text_at(self@.bytes, offset) {
                Ok(text) => r is Ok && r->Ok_0@ == text,
                Err(e) => r == Err::<&str, Error>(e),
            },
    {
        let raw = self.raw_exe;
        if raw.len() as u64 <= offset {
            return Err(Error::OffsetOutOfBounds { offset });
        }
        let start = offset as usize;
        let mut end = start;
        while end < raw.len() && raw[end] != 0
            invariant
                start <= end <= raw@.len(),
                first_nul(raw@, start as int) == first_nul(raw@, end as int),
            decreases raw@.len() - end,
        {
            end += 1;
        }
        if end >= raw.len() {
            return Err(Error::OffsetOutOfBounds { offset: raw.len() as u64 });
        }
        match text_from_bytes(&raw[start..end]) {
            Ok(s) => Ok(s),
            Err(e) => Err(e),
        }
    }
}

} // verus!
