//! File names as the container stores them.

use vstd::prelude::*;
use crate::parse::{BinarySize, Error, Input, Parse, TypeLabel};
use crate::wstr::WString;

verus! {

/// The name of a file: a text whose first two units encode the file's id.
#[derive(Debug, PartialEq, Eq)]
pub struct FileName(pub WString);

impl DeepView for FileName {
    type V = Seq<u16>;

    open spec fn deep_view(&self) -> Seq<u16> {
        self.0.deep_view()
    }
}

/// The id that the units of a file name encode: zero for fewer than two
/// units, else `units[1] * 0xff00 + units[0] - 0xff00ff`, taken modulo 2^32.
pub open spec fn file_id(units: Seq<u16>) -> u32 {
    if units.len() < 2 {
        0
    } else {
        let v = units[1] as int * 0xff00 + units[0] as int - 0xff00ff;
        if v < 0 {
            (v + 0x1_0000_0000) as u32
        } else {
            v as u32
        }
    }
}

impl TypeLabel for FileName {
    open spec fn label_spec() -> &'static str {
        "FileName"
    }

    fn label() -> (name: &'static str) {
        "FileName"
    }
}

impl<'inp> Parse<'inp> for FileName {
    open spec fn binary_size_spec() -> BinarySize {
        <WString as Parse>::binary_size_spec()
    }

    fn binary_size() -> (s: BinarySize) {
        WString::binary_size()
    }

    open spec fn decode(bytes: Seq<u8>, wide: bool) -> Result<(Seq<u16>, Seq<u8>), Error> {
        <WString as Parse>::decode(bytes, wide)
    }

    proof fn lemma_decode_leaves_tail(bytes: Seq<u8>, wide: bool) {
        <WString as Parse>::lemma_decode_leaves_tail(bytes, wide);
    }

    fn parse(input: &mut Input<'inp>) -> (r: Result<Self, Error>) {
        let text = WString::parse(input)?;
        Ok(FileName(text))
    }
}

impl FileName {
    /// The id of the file.
    pub fn to_id(&self) -> (id: u32)
        ensures
            id == file_id(self.deep_view()),
    {
        let units = self.0.units();
        if units.len() < 2 {
            0
        } else {
            let v: i64 = (units[1] as i64) * 0xff00 + (units[0] as i64) - 0xff00ff;
            if v < 0 {
                (v + 0x1_0000_0000) as u32
            } else {
                v as u32
            }
        }
    }
}

} // verus!
