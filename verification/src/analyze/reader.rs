//! A cursor over bytes of the image.

use vstd::prelude::*;
use crate::analyze::Error;
use crate::analyze::image::{rva_to_offset, PE};
use crate::bytes::{read_u16, read_u32, read_u64, u16_at, u32_at, u64_at};

verus! {

/// A view over bytes of the image that shrinks from the front as it is read.
pub struct Reader<'a> {
    pub remaining: &'a [u8],
}

/// What is left of `bytes` once `n` bytes are taken from the front, or the
/// error for a sequence shorter than `n`.
pub open spec fn after(bytes: Seq<u8>, n: int) -> Result<Seq<u8>, Error> {
    if bytes.len() < n {
        Err(Error::DataTooShort { required: n as usize, actual: bytes.len() as usize })
    } else {
        Ok(bytes.skip(n))
    }
}

impl<'a> Reader<'a> {
    /// Splits off the first `len` bytes as a reader of their own.
    pub fn eat_slice(&mut self, len: usize) -> (r: Result<Reader<'a>, Error>)
        ensures
            match after(old(self).remaining@, len as int) {
                Ok(rest) => r is Ok && r->Ok_0.remaining@ == old(self).remaining@.take(len as int)
                    && final(self).remaining@ == rest,
                Err(e) => r is Err && r->Err_0 == e && final(self).remaining@ == old(self).remaining@,
            },
    {
        let all = self.remaining;
        if all.len() < len {
            return Err(Error::DataTooShort { required: len, actual: all.len() });
        }
        self.remaining = &all[len..all.len()];
        Ok(Reader { remaining: &all[0..len] })
    }

    /// Reads a little-endian `u16`.
    pub fn eat_u16(&mut self) -> (r: Result<u16, Error>)
        ensures
            match after(old(self).remaining@, 2) {
                Ok(rest) => r == Ok::<u16, Error>(u16_at(old(self).remaining@, 0) as u16)
                    && final(self).remaining@ == rest,
                Err(e) => r == Err::<u16, Error>(e) && final(self).remaining@ == old(self).remaining@,
            },
    {
        let all = self.remaining;
        if all.len() < 2 {
            return Err(Error::DataTooShort { required: 2, actual: all.len() });
        }
        let v = read_u16(all, 0);
        self.remaining = &all[2..all.len()];
        Ok(v)
    }

    /// Reads a little-endian `u32`.
    pub fn eat_u32(&mut self) -> (r: Result<u32, Error>)
        ensures
            match after(old(self).remaining@, 4) {
                Ok(rest) => r == Ok::<u32, Error>(u32_at(old(self).remaining@, 0) as u32)
                    && final(self).remaining@ == rest,
                Err(e) => r == Err::<u32, Error>(e) && final(self).remaining@ == old(self).remaining@,
            },
    {
        let all = self.remaining;
        if all.len() < 4 {
            return Err(Error::DataTooShort { required: 4, actual: all.len() });
        }
        let v = read_u32(all, 0);
        self.remaining = &all[4..all.len()];
        Ok(v)
    }

    /// Reads a little-endian `u64`.
    pub fn eat_u64(&mut self) -> (r: Result<u64, Error>)
        ensures
            match after(old(self).remaining@, 8) {
                Ok(rest) => r == Ok::<u64, Error>(u64_at(old(self).remaining@, 0) as u64)
                    && final(self).remaining@ == rest,
                Err(e) => r == Err::<u64, Error>(e) && final(self).remaining@ == old(self).remaining@,
            },
    {
        let all = self.remaining;
        if all.len() < 8 {
            return Err(Error::DataTooShort { required: 8, actual: all.len() });
        }
        let v = read_u64(all, 0);
        self.remaining = &all[8..all.len()];
        Ok(v)
    }

    /// Reads a stored 64-bit address and turns it into a file offset; the
    /// null address gives offset zero.
    pub fn eat_rva_as_offset(&mut self, exe: &PE) -> (r: Result<u64, Error>)
        ensures
            match after(old(self).remaining@, 8) {
                Ok(rest) => r == rva_to_offset(exe@, u64_at(old(self).remaining@, 0) as u64)
                    && final(self).remaining@ == rest,
                Err(e) => r == Err::<u64, Error>(e) && final(self).remaining@ == old(self).remaining@,
            },
    {
        let address = self.eat_u64()?;
        exe.offset_of_address(address)
    }
}

impl<'a> PE<'a> {
    /// A reader over the image from a file offset to its end.
    pub fn reader_from_offset(&self, offset: u64) -> (r: Result<Reader<'a>, Error>)
        ensures
            self@.bytes.len() <= offset ==> r is Err && r->Err_0 == (Error::OffsetOutOfBounds {
                offset,
            }),
            offset < self@.bytes.len() ==> r is Ok && r->Ok_0.remaining@ == self@.bytes.skip(
                offset as int,
            ),
    {
        let raw = self.raw_exe;
        if raw.len() as u64 <= offset {
            return Err(Error::OffsetOutOfBounds { offset });
        }
        Ok(Reader { remaining: &raw[offset as usize..raw.len()] })
    }
}

} // verus!
