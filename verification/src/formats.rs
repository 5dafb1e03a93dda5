//! The formats that the container is known to hold, and the chunks of each.

use vstd::prelude::*;
use crate::parse::{
    ChunkIter, ChunkVariant, Error, Input, ParseMagicVariant, ParseVersioned, TypeLabel,
};
use crate::pf::Magic;

pub mod asnd;
pub mod bidx;
pub mod bkck;
pub mod txtv;

verus! {

/// A bank index file: for each language, the file of each sound bank.
#[derive(Debug)]
pub enum ABIX {
    V1(bidx::BIDX),
}

impl DeepView for ABIX {
    type V = Seq<Seq<Option<Seq<u16>>>>;

    open spec fn deep_view(&self) -> Seq<Seq<Option<Seq<u16>>>> {
        match self {
            ABIX::V1(chunk) => chunk.deep_view(),
        }
    }
}

impl TypeLabel for ABIX {
    open spec fn label_spec() -> &'static str {
        "ABIX"
    }

    fn label() -> (name: &'static str) {
        "ABIX"
    }
}

impl Magic for ABIX {
    /// The characters `ABIX`.
    const MAGIC: u32 = 0x5849_4241;
}

/// The tag of the format is the number that its four characters pack.
pub proof fn lemma_tag_of_abix()
    ensures
        <ABIX as Magic>::MAGIC == 0x5849_4241u32,
{
}

impl<'inp> ParseMagicVariant<'inp> for ABIX {
    /// The only chunk of the format is `BIDX`.
    open spec fn decode_variant(magic: u32, version: u16, bytes: Seq<u8>, wide: bool) -> Result<
        (Seq<Seq<Option<Seq<u16>>>>, Seq<u8>),
        Error,
    > {
        if magic == <bidx::BIDX as Magic>::MAGIC {
            <bidx::BIDX as ParseVersioned>::decode_version(version, bytes, wide)
        } else {
            Err(Error::UnknownMagic { ty: "ABIX", actual: magic })
        }
    }

    fn parse(magic: u32, version: u16, input: &mut Input<'inp>) -> (r: Result<Self, Error>) {
        if magic == <bidx::BIDX as Magic>::MAGIC {
            let chunk = bidx::BIDX::parse_version(version, input)?;
            Ok(ABIX::V1(chunk))
        } else {
            Err(Error::UnknownMagic { ty: Self::label(), actual: magic })
        }
    }
}

impl<'inp> ChunkVariant<'inp> for ABIX {
    fn parse_sequence(input: Input<'inp>) -> (chunks: ChunkIter<'inp, Self>) {
        ChunkIter::new(input)
    }
}

impl ABIX {
    /// The chunk that the value holds.
    pub fn inner(&self) -> (chunk: &bidx::BIDX)
        ensures
            chunk.deep_view() == self.deep_view(),
    {
        match self {
            ABIX::V1(chunk) => chunk,
        }
    }
}

/// A sound bank file: voice lines, each a sound file of its own.
#[derive(Debug)]
pub enum ABNK<'a> {
    V1(bkck::BKCK<'a>),
}

impl<'a> DeepView for ABNK<'a> {
    type V = bkck::BankFileDataModel;

    open spec fn deep_view(&self) -> bkck::BankFileDataModel {
        match self {
            ABNK::V1(chunk) => chunk.deep_view(),
        }
    }
}

impl<'a> TypeLabel for ABNK<'a> {
    open spec fn label_spec() -> &'static str {
        "ABNK"
    }

    fn label() -> (name: &'static str) {
        "ABNK"
    }
}

impl<'a> Magic for ABNK<'a> {
    /// The characters `ABNK`.
    const MAGIC: u32 = 0x4b4e_4241;
}

/// The tag of the format is the number that its four characters pack.
pub proof fn lemma_tag_of_abnk()
    ensures
        <ABNK as Magic>::MAGIC == 0x4b4e_4241u32,
{
}

impl<'a> ParseMagicVariant<'a> for ABNK<'a> {
    /// The only chunk of the format is `BKCK`.
    open spec fn decode_variant(magic: u32, version: u16, bytes: Seq<u8>, wide: bool) -> Result<
        (bkck::BankFileDataModel, Seq<u8>),
        Error,
    > {
        if magic == <bkck::BKCK<'a> as Magic>::MAGIC {
            <bkck::BKCK<'a> as ParseVersioned>::decode_version(version, bytes, wide)
        } else {
            Err(Error::UnknownMagic { ty: "ABNK", actual: magic })
        }
    }

    fn parse(magic: u32, version: u16, input: &mut Input<'a>) -> (r: Result<Self, Error>) {
        if magic == <bkck::BKCK<'a> as Magic>::MAGIC {
            let chunk = bkck::BKCK::<'a>::parse_version(version, input)?;
            Ok(ABNK::V1(chunk))
        } else {
            Err(Error::UnknownMagic { ty: Self::label(), actual: magic })
        }
    }
}

impl<'a> ChunkVariant<'a> for ABNK<'a> {
    fn parse_sequence(input: Input<'a>) -> (chunks: ChunkIter<'a, Self>) {
        ChunkIter::new(input)
    }
}

impl<'a> ABNK<'a> {
    /// The chunk that the value holds.
    pub fn inner(&self) -> (chunk: &bkck::BKCK<'a>)
        ensures
            chunk.deep_view() == self.deep_view(),
    {
        match self {
            ABNK::V1(chunk) => chunk,
        }
    }
}

/// A sound file: one waveform with its encoded samples.
#[derive(Debug)]
pub enum ASND<'a> {
    ASND(asnd::ASND<'a>),
}

impl<'a> DeepView for ASND<'a> {
    type V = asnd::WaveformDataModel;

    open spec fn deep_view(&self) -> asnd::WaveformDataModel {
        match self {
            ASND::ASND(chunk) => chunk.deep_view(),
        }
    }
}

impl<'a> TypeLabel for ASND<'a> {
    open spec fn label_spec() -> &'static str {
        "ASND"
    }

    fn label() -> (name: &'static str) {
        "ASND"
    }
}

impl<'a> Magic for ASND<'a> {
    /// The characters `ASND`.
    const MAGIC: u32 = 0x444e_5341;
}

/// The tag of the format is the number that its four characters pack.
pub proof fn lemma_tag_of_asnd()
    ensures
        <ASND as Magic>::MAGIC == 0x444e_5341u32,
{
}

impl<'a> ParseMagicVariant<'a> for ASND<'a> {
    /// The only chunk of the format is `ASND`.
    open spec fn decode_variant(magic: u32, version: u16, bytes: Seq<u8>, wide: bool) -> Result<
        (asnd::WaveformDataModel, Seq<u8>),
        Error,
    > {
        if magic == <asnd::ASND<'a> as Magic>::MAGIC {
            <asnd::ASND<'a> as ParseVersioned>::decode_version(version, bytes, wide)
        } else {
            Err(Error::UnknownMagic { ty: "ASND", actual: magic })
        }
    }

    fn parse(magic: u32, version: u16, input: &mut Input<'a>) -> (r: Result<Self, Error>) {
        if magic == <asnd::ASND<'a> as Magic>::MAGIC {
            let chunk = asnd::ASND::<'a>::parse_version(version, input)?;
            Ok(ASND::ASND(chunk))
        } else {
            Err(Error::UnknownMagic { ty: Self::label(), actual: magic })
        }
    }
}

impl<'a> ChunkVariant<'a> for ASND<'a> {
    fn parse_sequence(input: Input<'a>) -> (chunks: ChunkIter<'a, Self>) {
        ChunkIter::new(input)
    }
}

impl<'a> ASND<'a> {
    /// The chunk that the value holds.
    pub fn inner(&self) -> (chunk: &asnd::ASND<'a>)
        ensures
            chunk.deep_view() == self.deep_view(),
    {
        match self {
            ASND::ASND(chunk) => chunk,
        }
    }
}

} // verus!
