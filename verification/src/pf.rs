//! The pack-file container: its header, the headers of its chunks, and the
//! reader that checks the first and hands out a walk over the second.

use vstd::prelude::*;
use core::marker::PhantomData;
use crate::bytes::{read_u16, read_u32, u16_at, u32_at};
use crate::parse::{ChunkIter, Error, Input, ParseMagicVariant, TypeLabel};

verus! {

/// A type that goes by a four-character tag.
pub trait Magic: Sized + TypeLabel {
    const MAGIC: u32;
}

/// The flag bit that says pointers are 8 bytes wide.
pub const PF_FLAG_HAS_64BIT_PTRS: u16 = 4;

/// The tag `PF` that every container starts with.
pub const PF_MAGIC: u16 = 0x4650;

/// The size of the container header.
pub const PF_HEADER_SIZE: usize = 12;

/// The size of a chunk header.
pub const CHUNK_HEADER_SIZE: usize = 16;

/// The header of a container.
#[derive(Debug, Clone, Copy, PartialEq, Eq, Structural)]
pub struct PFHeader {
    pub magic: u16,
    pub flags: u16,
    pub _reserved: u16,
    pub header_size: u16,
    pub file_type: u32,
}

/// The header of a chunk.
#[derive(Debug, Clone, Copy, PartialEq, Eq, Structural)]
pub struct ChunkHeader {
    pub magic: u32,
    pub next_chunk_offset: u32,
    pub version: u16,
    pub chunk_header_size: u16,
    pub descriptor_offset: u32,
}

/// The container header held in the first 12 bytes.
pub open spec fn pf_header_of(bytes: Seq<u8>) -> PFHeader {
    PFHeader {
        magic: u16_at(bytes, 0) as u16,
        flags: u16_at(bytes, 2) as u16,
        _reserved: u16_at(bytes, 4) as u16,
        header_size: u16_at(bytes, 6) as u16,
        file_type: u32_at(bytes, 8) as u32,
    }
}

/// The chunk header held in the first 16 bytes.
pub open spec fn chunk_header_of(bytes: Seq<u8>) -> ChunkHeader {
    ChunkHeader {
        magic: u32_at(bytes, 0) as u32,
        next_chunk_offset: u32_at(bytes, 4) as u32,
        version: u16_at(bytes, 8) as u16,
        chunk_header_size: u16_at(bytes, 10) as u16,
        descriptor_offset: u32_at(bytes, 12) as u32,
    }
}

/// The payload of the chunk at the front of `bytes`: the window that starts
/// where the header says the header ends and has the length it says.
pub open spec fn chunk_payload(bytes: Seq<u8>) -> Result<Seq<u8>, Error> {
    let header = chunk_header_of(bytes);
    let start = header.chunk_header_size as int;
    let end = start + header.descriptor_offset;
    if end > bytes.len() {
        Err(
            Error::DataTooShort {
                ty: None,
                required: if end > usize::MAX {
                    usize::MAX
                } else {
                    end as usize
                },
                actual: bytes.len() as usize,
            },
        )
    } else {
        Ok(bytes.subrange(start, end))
    }
}

/// What is left once the chunk at the front of `bytes` is passed: the next
/// chunk starts 8 bytes and the header's stride further on, and nothing is
/// left if that is beyond the end.
pub open spec fn after_chunk(bytes: Seq<u8>) -> Seq<u8> {
    let stride = 8 + chunk_header_of(bytes).next_chunk_offset;
    if stride <= bytes.len() {
        bytes.skip(stride)
    } else {
        Seq::empty()
    }
}

/// The flags say that pointers are 8 bytes wide.
pub open spec fn has_wide_pointers(flags: u16) -> bool {
    flags & PF_FLAG_HAS_64BIT_PTRS != 0
}

/// The chunks of the container in `bytes` and the width of its pointers,
/// for a caller that asks for the format `F`.
pub open spec fn open_container<F: Magic>(bytes: Seq<u8>) -> Result<(Seq<u8>, bool), Error> {
    let header = pf_header_of(bytes);
    if bytes.len() < PF_HEADER_SIZE {
        Err(
            Error::DataTooShort {
                ty: Some("PFHeader"),
                required: PF_HEADER_SIZE,
                actual: bytes.len() as usize,
            },
        )
    } else if header.magic != PF_MAGIC {
        Err(
            Error::InvalidFileType {
                ty: "PFHeader",
                expected: PF_MAGIC as u32,
                actual: header.magic as u32,
            },
        )
    } else if header.file_type != F::MAGIC {
        Err(
            Error::InvalidFileType {
                ty: F::label_spec(),
                expected: F::MAGIC,
                actual: header.file_type,
            },
        )
    } else if header.header_size > bytes.len() {
        Err(
            Error::DataTooShort {
                ty: None,
                required: header.header_size as usize,
                actual: bytes.len() as usize,
            },
        )
    } else {
        Ok((bytes.skip(header.header_size as int), has_wide_pointers(header.flags)))
    }
}

/// A container whose header is whole, carries the tag `PF` and does not
/// claim to be longer than the input opens if and only if its format tag is
/// the one asked for; a different tag comes back in the error beside the
/// one asked for.
pub proof fn lemma_container_opens_iff_tag_matches<F: Magic>(bytes: Seq<u8>)
    requires
        bytes.len() >= PF_HEADER_SIZE,
        pf_header_of(bytes).magic == PF_MAGIC,
        pf_header_of(bytes).header_size <= bytes.len(),
    ensures
        open_container::<F>(bytes) is Ok <==> pf_header_of(bytes).file_type == F::MAGIC,
        pf_header_of(bytes).file_type != F::MAGIC ==> open_container::<F>(bytes) == Err::<
            (Seq<u8>, bool),
            Error,
        >(
            Error::InvalidFileType {
                ty: F::label_spec(),
                expected: F::MAGIC,
                actual: pf_header_of(bytes).file_type,
            },
        ),
{
}

impl TypeLabel for PFHeader {
    open spec fn label_spec() -> &'static str {
        "PFHeader"
    }

    fn label() -> (name: &'static str) {
        "PFHeader"
    }
}

impl PFHeader {
    /// Reads the header from the first 12 bytes.
    pub fn read(bytes: &[u8]) -> (header: Self)
        requires
            bytes.len() >= PF_HEADER_SIZE,
        ensures
            header == pf_header_of(bytes@),
    {
        PFHeader {
            magic: read_u16(bytes, 0),
            flags: read_u16(bytes, 2),
            _reserved: read_u16(bytes, 4),
            header_size: read_u16(bytes, 6),
            file_type: read_u32(bytes, 8),
        }
    }
}

impl ChunkHeader {
    /// Reads the header from the first 16 bytes.
    pub fn read(bytes: &[u8]) -> (header: Self)
        requires
            bytes.len() >= CHUNK_HEADER_SIZE,
        ensures
            header == chunk_header_of(bytes@),
    {
        ChunkHeader {
            magic: read_u32(bytes, 0),
            next_chunk_offset: read_u32(bytes, 4),
            version: read_u16(bytes, 8),
            chunk_header_size: read_u16(bytes, 10),
            descriptor_offset: read_u32(bytes, 12),
        }
    }
}

/// The reader of containers that hold the format `F`.
pub struct PackFileReader<'inp, F: Magic + ParseMagicVariant<'inp>> {
    pub _p: PhantomData<&'inp F>,
}

impl<'inp, F: Magic + ParseMagicVariant<'inp>> PackFileReader<'inp, F> {
    /// Checks the container header and gives the walk over the chunks.
    pub fn from_bytes(bytes: &'inp [u8]) -> (r: Result<ChunkIter<'inp, F>, Error>)
        ensures
            match open_container::<F>(bytes@) {
                Ok((chunks, wide)) => r is Ok && r->Ok_0.input.remaining@ == chunks
                    && r->Ok_0.input.is_64_bit == wide,
                Err(e) => r is Err && r->Err_0 == e,
            },
    {
        if bytes.len() < PF_HEADER_SIZE {
            return Err(
                Error::DataTooShort {
                    ty: Some(PFHeader::label()),
                    required: PF_HEADER_SIZE,
                    actual: bytes.len(),
                },
            );
        }
        let header = PFHeader::read(bytes);
        if header.magic != PF_MAGIC {
            return Err(
                Error::InvalidFileType {
                    ty: PFHeader::label(),
                    expected: PF_MAGIC as u32,
                    actual: header.magic as u32,
                },
            );
        }
        if header.file_type != F::MAGIC {
            return Err(Error::wrong_magic::<F>(header.file_type));
        }
        let start = header.header_size as usize;
        if start > bytes.len() {
            return Err(Error::DataTooShort { ty: None, required: start, actual: bytes.len() });
        }
        let input = Input {
            remaining: &bytes[start..bytes.len()],
            is_64_bit: header.flags & PF_FLAG_HAS_64BIT_PTRS != 0,
        };
        Ok(ChunkIter::new(input))
    }
}

} // verus!
