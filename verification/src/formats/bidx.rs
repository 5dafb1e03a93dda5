//! The chunk that holds a bank index.

use vstd::prelude::*;
use crate::parse::{
    select_version, BinarySize, Error, Input, Parse, ParseMagicVariant, ParseVersioned, TypeLabel,
};
use crate::pf::Magic;
use crate::filename::FileName;

verus! {

/// The bank index chunk, in any of its versions.
#[derive(Debug)]
pub enum BIDX {
    V0(BankIndexData),
}

impl DeepView for BIDX {
    type V = Seq<Seq<Option<Seq<u16>>>>;

    open spec fn deep_view(&self) -> Seq<Seq<Option<Seq<u16>>>> {
        match self {
            BIDX::V0(data) => data.deep_view(),
        }
    }
}

impl TypeLabel for BIDX {
    open spec fn label_spec() -> &'static str {
        "BIDX"
    }

    fn label() -> (name: &'static str) {
        "BIDX"
    }
}

impl Magic for BIDX {
    /// The characters `BIDX`.
    const MAGIC: u32 = 0x5844_4942;
}

/// The tag of the chunk is the number that its four characters pack.
pub proof fn lemma_tag_of_bidx()
    ensures
        <BIDX as Magic>::MAGIC == 0x5844_4942u32,
{
}

impl<'inp> ParseVersioned<'inp> for BIDX {
    type Output = Self;

    /// Version 0 is the only one with a layout.
    open spec fn decode_version(version: u16, bytes: Seq<u8>, wide: bool) -> Result<
        (Seq<Seq<Option<Seq<u16>>>>, Seq<u8>),
        Error,
    > {
        if version == 0 {
            <BankIndexData as Parse>::decode(bytes, wide)
        } else {
            Err(Error::UnknownVersion { ty: "BIDX", actual: version })
        }
    }

    fn parse(version: u16, input: &mut Input<'inp>) -> (r: Result<Self, Error>) {
        Self::parse_version(version, input)
    }
}

impl<'inp> ParseMagicVariant<'inp> for BIDX {
    /// The chunk goes by its own magic alone.
    open spec fn decode_variant(magic: u32, version: u16, bytes: Seq<u8>, wide: bool) -> Result<
        (Seq<Seq<Option<Seq<u16>>>>, Seq<u8>),
        Error,
    > {
        if magic == <Self as Magic>::MAGIC {
            <Self as ParseVersioned>::decode_version(version, bytes, wide)
        } else {
            Err(Error::UnknownMagic { ty: "BIDX", actual: magic })
        }
    }

    fn parse(magic: u32, version: u16, input: &mut Input<'inp>) -> (r: Result<Self, Error>) {
        if magic == <Self as Magic>::MAGIC {
            Self::parse_version(version, input)
        } else {
            Err(Error::UnknownMagic { ty: Self::label(), actual: magic })
        }
    }
}

impl BIDX {
    /// Decodes the chunk by its layout for `version`.
    pub fn parse_version(version: u16, input: &mut Input<'_>) -> (r: Result<Self, Error>)
        ensures
            final(input).is_64_bit == old(input).is_64_bit,
            match <Self as ParseVersioned>::decode_version(
                version,
                old(input).remaining@,
                old(input).is_64_bit,
            ) {
                Ok((value, rest)) => r is Ok && r->Ok_0.deep_view() == value && final(input).remaining@
                    == rest,
                Err(e) => r is Err && r->Err_0 == e,
            },
    {
        let known: [u16; 1] = [0];
        assert(known@.contains(version) <==> version == 0) by {
            assert(known@[0] == 0);
        }
        select_version(Self::label(), &known, version)?;
        let data = <BankIndexData as Parse<'_>>::parse(input)?;
        Ok(BIDX::V0(data))
    }

    /// The record that the chunk holds.
    pub fn inner(&self) -> (data: &BankIndexData)
        ensures
            data.deep_view() == self.deep_view(),
    {
        match self {
            BIDX::V0(data) => data,
        }
    }
}

/// Version 0 of the bank index: the bank files of every language.
#[derive(Debug)]
pub struct BankIndexData {
    pub bank_language: Vec<BankLanguageData>,
}

impl DeepView for BankIndexData {
    type V = Seq<Seq<Option<Seq<u16>>>>;

    open spec fn deep_view(&self) -> Seq<Seq<Option<Seq<u16>>>> {
        self.bank_language.deep_view()
    }
}

impl TypeLabel for BankIndexData {
    open spec fn label_spec() -> &'static str {
        "BankIndexData"
    }

    fn label() -> (name: &'static str) {
        "BankIndexData"
    }
}

impl<'inp> Parse<'inp> for BankIndexData {
    open spec fn binary_size_spec() -> BinarySize {
        BinarySize { fixed_bytes: 4, ptrs: 1, is_dynamic: false }
    }

    fn binary_size() -> (s: BinarySize) {
        let s = <Vec<BankLanguageData> as Parse>::binary_size();
        s
    }

    /// The fields one after another, in the order of their declaration.
    open spec fn decode(bytes: Seq<u8>, wide: bool) -> Result<(Seq<Seq<Option<Seq<u16>>>>, Seq<u8>), Error> {
        match <Vec<BankLanguageData> as Parse>::decode(bytes, wide) {
            Err(e) => Err(e),
            Ok((bank_language, rest0)) => Ok((bank_language, rest0)),
        }
    }

    proof fn lemma_decode_leaves_tail(bytes: Seq<u8>, wide: bool) {
        <Vec<BankLanguageData> as Parse>::lemma_decode_leaves_tail(bytes, wide);
        if let Ok((_, rest0)) = <Vec<BankLanguageData> as Parse>::decode(bytes, wide) {
        }
    }

    fn parse(input: &mut Input<'inp>) -> (r: Result<Self, Error>) {
        let bank_language = <Vec<BankLanguageData> as Parse<'inp>>::parse(input)?;
        Ok(BankIndexData { bank_language })
    }
}

/// The bank files of one language.
#[derive(Debug)]
pub struct BankLanguageData {
    pub bank_file_name: Vec<BankFileNameData>,
}

impl DeepView for BankLanguageData {
    type V = Seq<Option<Seq<u16>>>;

    open spec fn deep_view(&self) -> Seq<Option<Seq<u16>>> {
        self.bank_file_name.deep_view()
    }
}

impl TypeLabel for BankLanguageData {
    open spec fn label_spec() -> &'static str {
        "BankLanguageData"
    }

    fn label() -> (name: &'static str) {
        "BankLanguageData"
    }
}

impl<'inp> Parse<'inp> for BankLanguageData {
    open spec fn binary_size_spec() -> BinarySize {
        BinarySize { fixed_bytes: 4, ptrs: 1, is_dynamic: false }
    }

    fn binary_size() -> (s: BinarySize) {
        let s = <Vec<BankFileNameData> as Parse>::binary_size();
        s
    }

    /// The fields one after another, in the order of their declaration.
    open spec fn decode(bytes: Seq<u8>, wide: bool) -> Result<(Seq<Option<Seq<u16>>>, Seq<u8>), Error> {
        match <Vec<BankFileNameData> as Parse>::decode(bytes, wide) {
            Err(e) => Err(e),
            Ok((bank_file_name, rest0)) => Ok((bank_file_name, rest0)),
        }
    }

    proof fn lemma_decode_leaves_tail(bytes: Seq<u8>, wide: bool) {
        <Vec<BankFileNameData> as Parse>::lemma_decode_leaves_tail(bytes, wide);
        if let Ok((_, rest0)) = <Vec<BankFileNameData> as Parse>::decode(bytes, wide) {
        }
    }

    fn parse(input: &mut Input<'inp>) -> (r: Result<Self, Error>) {
        let bank_file_name = <Vec<BankFileNameData> as Parse<'inp>>::parse(input)?;
        Ok(BankLanguageData { bank_file_name })
    }
}

/// The file that holds one bank, if there is one.
#[derive(Debug)]
pub struct BankFileNameData {
    pub file_name: Option<FileName>,
}

impl DeepView for BankFileNameData {
    type V = Option<Seq<u16>>;

    open spec fn deep_view(&self) -> Option<Seq<u16>> {
        self.file_name.deep_view()
    }
}

impl TypeLabel for BankFileNameData {
    open spec fn label_spec() -> &'static str {
        "BankFileNameData"
    }

    fn label() -> (name: &'static str) {
        "BankFileNameData"
    }
}

impl<'inp> Parse<'inp> for BankFileNameData {
    open spec fn binary_size_spec() -> BinarySize {
        BinarySize { fixed_bytes: 0, ptrs: 1, is_dynamic: false }
    }

    fn binary_size() -> (s: BinarySize) {
        let s = <Option<FileName> as Parse>::binary_size();
        s
    }

    /// The fields one after another, in the order of their declaration.
    open spec fn decode(bytes: Seq<u8>, wide: bool) -> Result<(Option<Seq<u16>>, Seq<u8>), Error> {
        match <Option<FileName> as Parse>::decode(bytes, wide) {
            Err(e) => Err(e),
            Ok((file_name, rest0)) => Ok((file_name, rest0)),
        }
    }

    proof fn lemma_decode_leaves_tail(bytes: Seq<u8>, wide: bool) {
        <Option<FileName> as Parse>::lemma_decode_leaves_tail(bytes, wide);
        if let Ok((_, rest0)) = <Option<FileName> as Parse>::decode(bytes, wide) {
        }
    }

    fn parse(input: &mut Input<'inp>) -> (r: Result<Self, Error>) {
        let file_name = <Option<FileName> as Parse<'inp>>::parse(input)?;
        Ok(BankFileNameData { file_name })
    }
}

} // verus!
