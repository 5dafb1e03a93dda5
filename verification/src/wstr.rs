//! Zero-terminated text of 16-bit units.

use vstd::prelude::*;
use crate::bytes::{read_u16, u16_at};
use crate::parse::{is_tail, BinarySize, Error, Input, Parse, TypeLabel};

verus! {

/// A text of 16-bit units, without its terminator.
#[derive(Debug, PartialEq, Eq)]
pub struct WString(pub Vec<u16>);

impl DeepView for WString {
    type V = Seq<u16>;

    open spec fn deep_view(&self) -> Seq<u16> {
        self.0@
    }
}

/// The 16-bit unit of `bytes` with index `i`.
pub open spec fn unit_at(bytes: Seq<u8>, i: int) -> u16 {
    u16_at(bytes, 2 * i) as u16
}

/// The first `n` units of `bytes`.
pub open spec fn units(bytes: Seq<u8>, n: int) -> Seq<u16> {
    Seq::new(n as nat, |i: int| unit_at(bytes, i))
}

/// The index of the first zero unit at or after index `from`, among the
/// whole units of `bytes`.
pub open spec fn first_zero_unit(bytes: Seq<u8>, from: int) -> Option<int>
    decreases bytes.len() / 2 - from,
{
    if from < 0 || from >= bytes.len() / 2 {
        None
    } else if unit_at(bytes, from) == 0 {
        Some(from)
    } else {
        first_zero_unit(bytes, from + 1)
    }
}

/// The terminator that [`first_zero_unit`] finds is a zero unit within the
/// input, and no unit before it is zero.
pub proof fn lemma_first_zero_unit(bytes: Seq<u8>, from: int)
    requires
        0 <= from,
    ensures
        match first_zero_unit(bytes, from) {
            Some(t) => from <= t < bytes.len() / 2 && unit_at(bytes, t) == 0 && forall|i: int|
                from <= i < t ==> unit_at(bytes, i) != 0,
            None => forall|i: int| from <= i < bytes.len() / 2 ==> unit_at(bytes, i) != 0,
        },
    decreases bytes.len() / 2 - from,
{
    if from < bytes.len() / 2 && unit_at(bytes, from) != 0 {
        lemma_first_zero_unit(bytes, from + 1);
    }
}

impl TypeLabel for WString {
    open spec fn label_spec() -> &'static str {
        "WString"
    }

    fn label() -> (name: &'static str) {
        "WString"
    }
}

impl<'inp> Parse<'inp> for WString {
    open spec fn binary_size_spec() -> BinarySize {
        BinarySize { fixed_bytes: 0, ptrs: 0, is_dynamic: true }
    }

    fn binary_size() -> (s: BinarySize) {
        BinarySize::dynamic()
    }

    /// The units before the first zero unit; the input goes on behind that
    /// unit.
    open spec fn decode(bytes: Seq<u8>, wide: bool) -> Result<(Seq<u16>, Seq<u8>), Error> {
        match first_zero_unit(bytes, 0) {
            None => Err(Error::CannotFindNullTerminator),
            Some(t) => Ok((units(bytes, t), bytes.skip(2 * (t + 1)))),
        }
    }

    proof fn lemma_decode_leaves_tail(bytes: Seq<u8>, wide: bool) {
        reveal(is_tail);
        lemma_first_zero_unit(bytes, 0);
    }

    fn parse(input: &mut Input<'inp>) -> (r: Result<Self, Error>) {
        let all = input.remaining;
        let n = all.len() / 2;
        let mut text: Vec<u16> = Vec::new();
        let mut i: usize = 0;
        while i < n
            invariant
                i <= n,
                n == all.len() / 2,
                all@ == old(input).remaining@,
                input.is_64_bit == old(input).is_64_bit,
                first_zero_unit(all@, 0) == first_zero_unit(all@, i as int),
                text@ =~= units(all@, i as int),
            decreases n - i,
        {
            let unit = read_u16(all, 2 * i);
            if unit == 0 {
                input.remaining = &all[2 * (i + 1)..all.len()];
                return Ok(WString(text));
            }
            text.push(unit);
            i += 1;
        }
        Err(Error::CannotFindNullTerminator)
    }
}

impl WString {
    /// The units of the text.
    pub fn units(&self) -> (u: &Vec<u16>)
        ensures
            u@ == self.deep_view(),
    {
        &self.0
    }

    /// The number of units.
    pub fn len(&self) -> (n: usize)
        ensures
            n == self.deep_view().len(),
    {
        self.0.len()
    }
}

} // verus!
