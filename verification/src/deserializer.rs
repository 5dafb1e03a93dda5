//! The cursor and the framing of the container for decoders that are driven
//! from outside: the caller asks for one value after another, and between
//! chunks for the next chunk.

use vstd::prelude::*;
use crate::bytes::{read_u16, read_u32, read_u64, u16_at, u32_at, u64_at};
use crate::wstr::first_zero_unit;

verus! {

/// Why a decode failed.
#[derive(Debug, Clone, PartialEq, Eq)]
pub enum Error {
    /// A tag is not the one that was asked for.
    InvalidFileType { expected: u32, actual: u32 },
    /// The input uses an encoding that this decoder does not handle.
    NotSupported,
    /// Fewer bytes are left than the value needs.
    DataTooShort,
    /// A failure that the caller of the cursor reports in its own words.
    Custom(String),
}

/// A view over the input that shrinks from the front as it is read. The
/// width of the pointers in the input is part of the type.
pub struct Deserializer<'inp, const HAS_64_BIT_OFFSET: bool> {
    pub remaining: &'inp [u8],
}

/// What reading a pointer of the given width at the front of `bytes` gives:
/// the distance from the end of the pointer to its target, zero for the null
/// pointer, and the bytes after the pointer.
pub open spec fn decode_offset(bytes: Seq<u8>, wide: bool) -> Result<(usize, Seq<u8>), Error> {
    let width: int = if wide {
        8
    } else {
        4
    };
    let raw = if wide {
        u64_at(bytes, 0)
    } else {
        u32_at(bytes, 0)
    };
    if bytes.len() < width {
        Err(Error::DataTooShort)
    } else if raw == 0 {
        Ok((0, bytes.skip(width)))
    } else if raw < width || raw - width > usize::MAX {
        Err(Error::NotSupported)
    } else {
        Ok(((raw - width) as usize, bytes.skip(width)))
    }
}

impl<'inp, const HAS_64_BIT_OFFSET: bool> Deserializer<'inp, HAS_64_BIT_OFFSET> {
    /// Reads a little-endian `u32`.
    pub fn eat_u32(&mut self) -> (r: Result<u32, Error>)
        ensures
            old(self).remaining@.len() < 4 ==> r == Err::<u32, Error>(Error::DataTooShort)
                && final(self).remaining@ == old(self).remaining@,
            old(self).remaining@.len() >= 4 ==> r == Ok::<u32, Error>(
                u32_at(old(self).remaining@, 0) as u32,
            ) && final(self).remaining@ == old(self).remaining@.skip(4),
    {
        let all = self.remaining;
        if all.len() < 4 {
            return Err(Error::DataTooShort);
        }
        self.remaining = &all[4..all.len()];
        Ok(read_u32(all, 0))
    }

    /// Reads a little-endian `u64`.
    pub fn eat_u64(&mut self) -> (r: Result<u64, Error>)
        ensures
            old(self).remaining@.len() < 8 ==> r == Err::<u64, Error>(Error::DataTooShort)
                && final(self).remaining@ == old(self).remaining@,
            old(self).remaining@.len() >= 8 ==> r == Ok::<u64, Error>(
                u64_at(old(self).remaining@, 0) as u64,
            ) && final(self).remaining@ == old(self).remaining@.skip(8),
    {
        let all = self.remaining;
        if all.len() < 8 {
            return Err(Error::DataTooShort);
        }
        self.remaining = &all[8..all.len()];
        Ok(read_u64(all, 0))
    }

    /// Reads a self-relative pointer and gives the distance from the end of
    /// its field to its target; zero for the null pointer.
    pub fn eat_offset(&mut self) -> (r: Result<usize, Error>)
        ensures
            match decode_offset(old(self).remaining@, HAS_64_BIT_OFFSET) {
                Ok((offset, rest)) => r == Ok::<usize, Error>(offset) && final(self).remaining@
                    == rest,
                Err(e) => r == Err::<usize, Error>(e),
            },
    {
        if HAS_64_BIT_OFFSET {
            let v = self.eat_u64()?;
            if v == 0 {
                Ok(0)
            } else if v < 8 || v - 8 > usize::MAX as u64 {
                Err(Error::NotSupported)
            } else {
                Ok((v - 8) as usize)
            }
        } else {
            let v = self.eat_u32()?;
            if v == 0 {
                Ok(0)
            } else if v < 4 {
                Err(Error::NotSupported)
            } else {
                Ok((v - 4) as usize)
            }
        }
    }

    /// Reads a text of 16-bit units up to its zero unit and gives the bytes
    /// before that unit; the cursor goes on behind it.
    pub fn eat_wstr_bytes_no_term(&mut self) -> (r: Result<&'inp [u8], Error>)
        ensures
            match first_zero_unit(old(self).remaining@, 0) {
                Some(t) => r is Ok && r->Ok_0@ == old(self).remaining@.take(2 * t) && final(self).remaining@ == old(self).remaining@.skip(2 * (t + 1)),
                None => r is Err && r->Err_0 == Error::DataTooShort && final(self).remaining@
                    == old(self).remaining@,
            },
    {
        let all = self.remaining;
        let n = all.len() / 2;
        let mut i: usize = 0;
        while i < n
            invariant
                i <= n,
                n == all.len() / 2,
                all@ == old(self).remaining@,
                self.remaining@ == old(self).remaining@,
                first_zero_unit(all@, 0) == first_zero_unit(all@, i as int),
            decreases n - i,
        {
            if read_u16(all, 2 * i) == 0 {
                self.remaining = &all[2 * (i + 1)..all.len()];
                return Ok(&all[0..2 * i]);
            }
            i += 1;
        }
        Err(Error::DataTooShort)
    }
}

/// The tag `PF` that every container starts with.
pub const PF_MAGIC: u16 = 0x4650;

/// The header of a container.
#[derive(Debug, Clone, Copy, PartialEq, Eq, Structural)]
pub struct Header {
    pub magic: u16,
    pub version: u16,
    pub _reserved: u16,
    pub header_size: u16,
    pub file_type: u32,
}

/// The header of a chunk.
#[derive(Debug, Clone, Copy, PartialEq, Eq, Structural)]
pub struct ChunkHeader {
    pub magic: u32,
    pub next_chunk_offset: u32,
    pub version: u16,
    pub size: u16,
    pub desc_offset: u32,
}

/// The container header held in the first 12 bytes.
pub open spec fn header_of(bytes: Seq<u8>) -> Header {
    Header {
        magic: u16_at(bytes, 0) as u16,
        version: u16_at(bytes, 2) as u16,
        _reserved: u16_at(bytes, 4) as u16,
        header_size: u16_at(bytes, 6) as u16,
        file_type: u32_at(bytes, 8) as u32,
    }
}

/// The chunk header held in the first 16 bytes.
pub open spec fn chunk_header_of(bytes: Seq<u8>) -> ChunkHeader {
    ChunkHeader {
        magic: u32_at(bytes, 0) as u32,
        next_chunk_offset: u32_at(bytes, 4) as u32,
        version: u16_at(bytes, 8) as u16,
        size: u16_at(bytes, 10) as u16,
        desc_offset: u32_at(bytes, 12) as u32,
    }
}

/// The chunks of the container in `bytes`, for a caller that asks for the
/// format tag `expected`.
pub open spec fn container_body(bytes: Seq<u8>, expected: u32) -> Result<Seq<u8>, Error> {
    let header = header_of(bytes);
    if bytes.len() < 12 {
        Err(Error::DataTooShort)
    } else if header.magic != PF_MAGIC {
        Err(Error::InvalidFileType { expected: PF_MAGIC as u32, actual: header.magic as u32 })
    } else if header.file_type != expected {
        Err(Error::InvalidFileType { expected, actual: header.file_type })
    } else if header.header_size > bytes.len() {
        Err(Error::DataTooShort)
    } else {
        Ok(bytes.skip(header.header_size as int))
    }
}

/// Checks the container header and gives the bytes that hold the chunks.
pub fn open_container<'a>(bytes: &'a [u8], expected: u32) -> (r: Result<&'a [u8], Error>)
    ensures
        match container_body(bytes@, expected) {
            Ok(body) => r is Ok && r->Ok_0@ == body,
            Err(e) => r is Err && r->Err_0 == e,
        },
{
    if bytes.len() < 12 {
        return Err(Error::DataTooShort);
    }
    let magic = read_u16(bytes, 0);
    if magic != PF_MAGIC {
        return Err(Error::InvalidFileType { expected: PF_MAGIC as u32, actual: magic as u32 });
    }
    let file_type = read_u32(bytes, 8);
    if file_type != expected {
        return Err(Error::InvalidFileType { expected, actual: file_type });
    }
    let start = read_u16(bytes, 6) as usize;
    if start > bytes.len() {
        return Err(Error::DataTooShort);
    }
    Ok(&bytes[start..bytes.len()])
}

/// What is left once the chunk at the front of `data` is passed.
pub open spec fn after_chunk(data: Seq<u8>) -> Seq<u8> {
    let stride = 8 + chunk_header_of(data).next_chunk_offset;
    if stride > data.len() {
        Seq::empty()
    } else {
        data.skip(stride)
    }
}

/// What a walk over chunks does next.
pub enum Step<'a> {
    /// No further chunk: no more than a chunk header is left.
    Done,
    /// A chunk to hand to its decoder, and where the walk goes on after it.
    Chunk { header: ChunkHeader, payload: &'a [u8], rest: &'a [u8] },
}

/// Decides the next step of a walk over the chunks in `data`. The payload of
/// a chunk lies right behind its header; the next chunk starts 8 bytes and
/// the header's stride further on, and the walk ends if that is beyond the
/// end.
pub fn next_chunk<'a>(data: &'a [u8]) -> (r: Result<Step<'a>, Error>)
    ensures
        data@.len() <= 16 ==> r is Ok && r->Ok_0 is Done,
        data@.len() > 16 && 16 + chunk_header_of(data@).desc_offset > data@.len() ==> r is Err
            && r->Err_0 == Error::DataTooShort,
        data@.len() > 16 && 16 + chunk_header_of(data@).desc_offset <= data@.len() ==> r is Ok
            && r->Ok_0 is Chunk && r->Ok_0->header == chunk_header_of(data@) && r->Ok_0->payload@
            == data@.subrange(16, 16 + chunk_header_of(data@).desc_offset) && r->Ok_0->rest@
            == after_chunk(data@),
{
    if data.len() <= 16 {
        return Ok(Step::Done);
    }
    let header = ChunkHeader {
        magic: read_u32(data, 0),
        next_chunk_offset: read_u32(data, 4),
        version: read_u16(data, 8),
        size: read_u16(data, 10),
        desc_offset: read_u32(data, 12),
    };
    let len = data.len() as u64;
    let end = 16 + header.desc_offset as u64;
    if end > len {
        return Err(Error::DataTooShort);
    }
    let next = 8 + header.next_chunk_offset as u64;
    let rest = if next > len {
        &data[data.len()..data.len()]
    } else {
        &data[next as usize..data.len()]
    };
    Ok(Step::Chunk { header, payload: &data[16..end as usize], rest })
}

} // verus!
