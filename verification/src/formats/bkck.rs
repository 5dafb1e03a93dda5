//! The chunk that holds a sound bank.

use vstd::prelude::*;
use crate::parse::{
    lemma_tail_of_tail, select_version, BinarySize, Error, Input, Parse, ParseMagicVariant, ParseVersioned, TypeLabel,
};
use crate::pf::Magic;
use crate::parse::ints::F32Bits;

verus! {

/// The sound bank chunk, in any of its versions.
#[derive(Debug)]
pub enum BKCK<'a> {
    V2(BankFileData<'a>),
}

impl<'a> DeepView for BKCK<'a> {
    type V = BankFileDataModel;

    open spec fn deep_view(&self) -> BankFileDataModel {
        match self {
            BKCK::V2(data) => data.deep_view(),
        }
    }
}

impl<'a> TypeLabel for BKCK<'a> {
    open spec fn label_spec() -> &'static str {
        "BKCK"
    }

    fn label() -> (name: &'static str) {
        "BKCK"
    }
}

impl<'a> Magic for BKCK<'a> {
    /// The characters `BKCK`.
    const MAGIC: u32 = 0x4b43_4b42;
}

/// The tag of the chunk is the number that its four characters pack.
pub proof fn lemma_tag_of_bkck()
    ensures
        <BKCK as Magic>::MAGIC == 0x4b43_4b42u32,
{
}

impl<'a> ParseVersioned<'a> for BKCK<'a> {
    type Output = Self;

    /// Version 2 is the only one with a layout.
    open spec fn decode_version(version: u16, bytes: Seq<u8>, wide: bool) -> Result<
        (BankFileDataModel, Seq<u8>),
        Error,
    > {
        if version == 2 {
            <BankFileData<'a> as Parse>::decode(bytes, wide)
        } else {
            Err(Error::UnknownVersion { ty: "BKCK", actual: version })
        }
    }

    fn parse(version: u16, input: &mut Input<'a>) -> (r: Result<Self, Error>) {
        Self::parse_version(version, input)
    }
}

impl<'a> ParseMagicVariant<'a> for BKCK<'a> {
    /// The chunk goes by its own magic alone.
    open spec fn decode_variant(magic: u32, version: u16, bytes: Seq<u8>, wide: bool) -> Result<
        (BankFileDataModel, Seq<u8>),
        Error,
    > {
        if magic == <Self as Magic>::MAGIC {
            <Self as ParseVersioned>::decode_version(version, bytes, wide)
        } else {
            Err(Error::UnknownMagic { ty: "BKCK", actual: magic })
        }
    }

    fn parse(magic: u32, version: u16, input: &mut Input<'a>) -> (r: Result<Self, Error>) {
        if magic == <Self as Magic>::MAGIC {
            Self::parse_version(version, input)
        } else {
            Err(Error::UnknownMagic { ty: Self::label(), actual: magic })
        }
    }
}

impl<'a> BKCK<'a> {
    /// Decodes the chunk by its layout for `version`.
    pub fn parse_version(version: u16, input: &mut Input<'a>) -> (r: Result<Self, Error>)
        ensures
            final(input).is_64_bit == old(input).is_64_bit,
            match <Self as ParseVersioned>::decode_version(
                version,
                old(input).remaining@,
                old(input).is_64_bit,
            ) {
                Ok((value, rest)) => r is Ok && r->Ok_0.deep_view() == value && final(input).remaining@
                    == rest,
                Err(e) => r is Err && r->Err_0 == e,
            },
    {
        let known: [u16; 1] = [2];
        assert(known@.contains(version) <==> version == 2) by {
            assert(known@[0] == 2);
        }
        select_version(Self::label(), &known, version)?;
        let data = <BankFileData<'a> as Parse<'a>>::parse(input)?;
        Ok(BKCK::V2(data))
    }

    /// The record that the chunk holds.
    pub fn inner(&self) -> (data: &BankFileData<'a>)
        ensures
            data.deep_view() == self.deep_view(),
    {
        match self {
            BKCK::V2(data) => data,
        }
    }
}

/// Version 2 of the sound bank: its sound files.
#[derive(Debug)]
pub struct BankFileData<'a> {
    pub _reserved1: u32,
    pub _reserved2: u32,
    pub _reserved3: u32,
    pub _reserved4: u32,
    pub files: Vec<ASNDFile<'a>>,
    pub _reserved_data: u32,
}

/// The mathematical value of a [`BankFileData`].
pub struct BankFileDataModel {
    pub _reserved1: u32,
    pub _reserved2: u32,
    pub _reserved3: u32,
    pub _reserved4: u32,
    pub files: Seq<ASNDFileModel>,
    pub _reserved_data: u32,
}

impl<'a> DeepView for BankFileData<'a> {
    type V = BankFileDataModel;

    open spec fn deep_view(&self) -> BankFileDataModel {
        BankFileDataModel {
            _reserved1: self._reserved1.deep_view(),
            _reserved2: self._reserved2.deep_view(),
            _reserved3: self._reserved3.deep_view(),
            _reserved4: self._reserved4.deep_view(),
            files: self.files.deep_view(),
            _reserved_data: self._reserved_data.deep_view(),
        }
    }
}

impl<'a> TypeLabel for BankFileData<'a> {
    open spec fn label_spec() -> &'static str {
        "BankFileData"
    }

    fn label() -> (name: &'static str) {
        "BankFileData"
    }
}

impl<'a> Parse<'a> for BankFileData<'a> {
    open spec fn binary_size_spec() -> BinarySize {
        BinarySize { fixed_bytes: 24, ptrs: 1, is_dynamic: false }
    }

    fn binary_size() -> (s: BinarySize) {
        let s = <u32 as Parse>::binary_size();
        let s = s.add(&<u32 as Parse>::binary_size());
        let s = s.add(&<u32 as Parse>::binary_size());
        let s = s.add(&<u32 as Parse>::binary_size());
        let s = s.add(&<Vec<ASNDFile<'a>> as Parse>::binary_size());
        let s = s.add(&<u32 as Parse>::binary_size());
        s
    }

    /// The fields one after another, in the order of their declaration.
    open spec fn decode(bytes: Seq<u8>, wide: bool) -> Result<(BankFileDataModel, Seq<u8>), Error> {
        match <u32 as Parse>::decode(bytes, wide) {
            Err(e) => Err(e),
            Ok((_reserved1, rest0)) => match <u32 as Parse>::decode(rest0, wide) {
                Err(e) => Err(e),
                Ok((_reserved2, rest1)) => match <u32 as Parse>::decode(rest1, wide) {
                    Err(e) => Err(e),
                    Ok((_reserved3, rest2)) => match <u32 as Parse>::decode(rest2, wide) {
                        Err(e) => Err(e),
                        Ok((_reserved4, rest3)) => match <Vec<ASNDFile<'a>> as Parse>::decode(rest3, wide) {
                            Err(e) => Err(e),
                            Ok((files, rest4)) => match <u32 as Parse>::decode(rest4, wide) {
                                Err(e) => Err(e),
                                Ok((_reserved_data, rest5)) => Ok((BankFileDataModel { _reserved1, _reserved2, _reserved3, _reserved4, files, _reserved_data }, rest5)),
                            },
                        },
                    },
                },
            },
        }
    }

    proof fn lemma_decode_leaves_tail(bytes: Seq<u8>, wide: bool) {
        <u32 as Parse>::lemma_decode_leaves_tail(bytes, wide);
        if let Ok((_, rest0)) = <u32 as Parse>::decode(bytes, wide) {
            <u32 as Parse>::lemma_decode_leaves_tail(rest0, wide);
            if let Ok((_, rest1)) = <u32 as Parse>::decode(rest0, wide) {
                lemma_tail_of_tail(rest1, rest0, bytes);
                <u32 as Parse>::lemma_decode_leaves_tail(rest1, wide);
                if let Ok((_, rest2)) = <u32 as Parse>::decode(rest1, wide) {
                    lemma_tail_of_tail(rest2, rest1, bytes);
                    <u32 as Parse>::lemma_decode_leaves_tail(rest2, wide);
                    if let Ok((_, rest3)) = <u32 as Parse>::decode(rest2, wide) {
                        lemma_tail_of_tail(rest3, rest2, bytes);
                        <Vec<ASNDFile<'a>> as Parse>::lemma_decode_leaves_tail(rest3, wide);
                        if let Ok((_, rest4)) = <Vec<ASNDFile<'a>> as Parse>::decode(rest3, wide) {
                            lemma_tail_of_tail(rest4, rest3, bytes);
                            <u32 as Parse>::lemma_decode_leaves_tail(rest4, wide);
                            if let Ok((_, rest5)) = <u32 as Parse>::decode(rest4, wide) {
                                lemma_tail_of_tail(rest5, rest4, bytes);
                            }
                        }
                    }
                }
            }
        }
    }

    fn parse(input: &mut Input<'a>) -> (r: Result<Self, Error>) {
        let _reserved1 = <u32 as Parse<'a>>::parse(input)?;
        let _reserved2 = <u32 as Parse<'a>>::parse(input)?;
        let _reserved3 = <u32 as Parse<'a>>::parse(input)?;
        let _reserved4 = <u32 as Parse<'a>>::parse(input)?;
        let files = <Vec<ASNDFile<'a>> as Parse<'a>>::parse(input)?;
        let _reserved_data = <u32 as Parse<'a>>::parse(input)?;
        Ok(BankFileData { _reserved1, _reserved2, _reserved3, _reserved4, files, _reserved_data })
    }
}

/// One voice line of a bank.
#[derive(Debug)]
pub struct ASNDFile<'a> {
    pub voice_id: u32,
    pub flags: u32,
    pub _reserved1: u32,
    pub _reserved2: u32,
    pub _reserved3: u32,
    pub _reserved4: u32,
    pub length: F32Bits,
    pub offset: F32Bits,
    pub _reserved5: u8,
    pub _reserved6: u8,
    pub _reserved7: u8,
    pub _reserved8: u8,
    /// A sound file, as a window of the input.
    pub audio_data: &'a [u8],
}

/// The mathematical value of a [`ASNDFile`].
pub struct ASNDFileModel {
    pub voice_id: u32,
    pub flags: u32,
    pub _reserved1: u32,
    pub _reserved2: u32,
    pub _reserved3: u32,
    pub _reserved4: u32,
    pub length: u32,
    pub offset: u32,
    pub _reserved5: u8,
    pub _reserved6: u8,
    pub _reserved7: u8,
    pub _reserved8: u8,
    pub audio_data: Seq<u8>,
}

impl<'a> DeepView for ASNDFile<'a> {
    type V = ASNDFileModel;

    open spec fn deep_view(&self) -> ASNDFileModel {
        ASNDFileModel {
            voice_id: self.voice_id.deep_view(),
            flags: self.flags.deep_view(),
            _reserved1: self._reserved1.deep_view(),
            _reserved2: self._reserved2.deep_view(),
            _reserved3: self._reserved3.deep_view(),
            _reserved4: self._reserved4.deep_view(),
            length: self.length.deep_view(),
            offset: self.offset.deep_view(),
            _reserved5: self._reserved5.deep_view(),
            _reserved6: self._reserved6.deep_view(),
            _reserved7: self._reserved7.deep_view(),
            _reserved8: self._reserved8.deep_view(),
            audio_data: self.audio_data.deep_view(),
        }
    }
}

impl<'a> TypeLabel for ASNDFile<'a> {
    open spec fn label_spec() -> &'static str {
        "ASNDFile"
    }

    fn label() -> (name: &'static str) {
        "ASNDFile"
    }
}

impl<'a> Parse<'a> for ASNDFile<'a> {
    open spec fn binary_size_spec() -> BinarySize {
        BinarySize { fixed_bytes: 40, ptrs: 1, is_dynamic: false }
    }

    fn binary_size() -> (s: BinarySize) {
        let s = <u32 as Parse>::binary_size();
        let s = s.add(&<u32 as Parse>::binary_size());
        let s = s.add(&<u32 as Parse>::binary_size());
        let s = s.add(&<u32 as Parse>::binary_size());
        let s = s.add(&<u32 as Parse>::binary_size());
        let s = s.add(&<u32 as Parse>::binary_size());
        let s = s.add(&<F32Bits as Parse>::binary_size());
        let s = s.add(&<F32Bits as Parse>::binary_size());
        let s = s.add(&<u8 as Parse>::binary_size());
        let s = s.add(&<u8 as Parse>::binary_size());
        let s = s.add(&<u8 as Parse>::binary_size());
        let s = s.add(&<u8 as Parse>::binary_size());
        let s = s.add(&<&'a [u8] as Parse>::binary_size());
        s
    }

    /// The fields one after another, in the order of their declaration.
    open spec fn decode(bytes: Seq<u8>, wide: bool) -> Result<(ASNDFileModel, Seq<u8>), Error> {
        match <u32 as Parse>::decode(bytes, wide) {
            Err(e) => Err(e),
            Ok((voice_id, rest0)) => match <u32 as Parse>::decode(rest0, wide) {
                Err(e) => Err(e),
                Ok((flags, rest1)) => match <u32 as Parse>::decode(rest1, wide) {
                    Err(e) => Err(e),
                    Ok((_reserved1, rest2)) => match <u32 as Parse>::decode(rest2, wide) {
                        Err(e) => Err(e),
                        Ok((_reserved2, rest3)) => match <u32 as Parse>::decode(rest3, wide) {
                            Err(e) => Err(e),
                            Ok((_reserved3, rest4)) => match <u32 as Parse>::decode(rest4, wide) {
                                Err(e) => Err(e),
                                Ok((_reserved4, rest5)) => match <F32Bits as Parse>::decode(rest5, wide) {
                                    Err(e) => Err(e),
                                    Ok((length, rest6)) => match <F32Bits as Parse>::decode(rest6, wide) {
                                        Err(e) => Err(e),
                                        Ok((offset, rest7)) => match <u8 as Parse>::decode(rest7, wide) {
                                            Err(e) => Err(e),
                                            Ok((_reserved5, rest8)) => match <u8 as Parse>::decode(rest8, wide) {
                                                Err(e) => Err(e),
                                                Ok((_reserved6, rest9)) => match <u8 as Parse>::decode(rest9, wide) {
                                                    Err(e) => Err(e),
                                                    Ok((_reserved7, rest10)) => match <u8 as Parse>::decode(rest10, wide) {
                                                        Err(e) => Err(e),
                                                        Ok((_reserved8, rest11)) => match <&'a [u8] as Parse>::decode(rest11, wide) {
                                                            Err(e) => Err(e),
                                                            Ok((audio_data, rest12)) => Ok((ASNDFileModel { voice_id, flags, _reserved1, _reserved2, _reserved3, _reserved4, length, offset, _reserved5, _reserved6, _reserved7, _reserved8, audio_data }, rest12)),
                                                        },
                                                    },
                                                },
                                            },
                                        },
                                    },
                                },
                            },
                        },
                    },
                },
            },
        }
    }

    proof fn lemma_decode_leaves_tail(bytes: Seq<u8>, wide: bool) {
        <u32 as Parse>::lemma_decode_leaves_tail(bytes, wide);
        if let Ok((_, rest0)) = <u32 as Parse>::decode(bytes, wide) {
            <u32 as Parse>::lemma_decode_leaves_tail(rest0, wide);
            if let Ok((_, rest1)) = <u32 as Parse>::decode(rest0, wide) {
                lemma_tail_of_tail(rest1, rest0, bytes);
                <u32 as Parse>::lemma_decode_leaves_tail(rest1, wide);
                if let Ok((_, rest2)) = <u32 as Parse>::decode(rest1, wide) {
                    lemma_tail_of_tail(rest2, rest1, bytes);
                    <u32 as Parse>::lemma_decode_leaves_tail(rest2, wide);
                    if let Ok((_, rest3)) = <u32 as Parse>::decode(rest2, wide) {
                        lemma_tail_of_tail(rest3, rest2, bytes);
                        <u32 as Parse>::lemma_decode_leaves_tail(rest3, wide);
                        if let Ok((_, rest4)) = <u32 as Parse>::decode(rest3, wide) {
                            lemma_tail_of_tail(rest4, rest3, bytes);
                            <u32 as Parse>::lemma_decode_leaves_tail(rest4, wide);
                            if let Ok((_, rest5)) = <u32 as Parse>::decode(rest4, wide) {
                                lemma_tail_of_tail(rest5, rest4, bytes);
                                <F32Bits as Parse>::lemma_decode_leaves_tail(rest5, wide);
                                if let Ok((_, rest6)) = <F32Bits as Parse>::decode(rest5, wide) {
                                    lemma_tail_of_tail(rest6, rest5, bytes);
                                    <F32Bits as Parse>::lemma_decode_leaves_tail(rest6, wide);
                                    if let Ok((_, rest7)) = <F32Bits as Parse>::decode(rest6, wide) {
                                        lemma_tail_of_tail(rest7, rest6, bytes);
                                        <u8 as Parse>::lemma_decode_leaves_tail(rest7, wide);
                                        if let Ok((_, rest8)) = <u8 as Parse>::decode(rest7, wide) {
                                            lemma_tail_of_tail(rest8, rest7, bytes);
                                            <u8 as Parse>::lemma_decode_leaves_tail(rest8, wide);
                                            if let Ok((_, rest9)) = <u8 as Parse>::decode(rest8, wide) {
                                                lemma_tail_of_tail(rest9, rest8, bytes);
                                                <u8 as Parse>::lemma_decode_leaves_tail(rest9, wide);
                                                if let Ok((_, rest10)) = <u8 as Parse>::decode(rest9, wide) {
                                                    lemma_tail_of_tail(rest10, rest9, bytes);
                                                    <u8 as Parse>::lemma_decode_leaves_tail(rest10, wide);
                                                    if let Ok((_, rest11)) = <u8 as Parse>::decode(rest10, wide) {
                                                        lemma_tail_of_tail(rest11, rest10, bytes);
                                                        <&'a [u8] as Parse>::lemma_decode_leaves_tail(rest11, wide);
                                                        if let Ok((_, rest12)) = <&'a [u8] as Parse>::decode(rest11, wide) {
                                                            lemma_tail_of_tail(rest12, rest11, bytes);
                                                        }
                                                    }
                                                }
                                            }
                                        }
                                    }
                                }
                            }
                        }
                    }
                }
            }
        }
    }

    fn parse(input: &mut Input<'a>) -> (r: Result<Self, Error>) {
        let voice_id = <u32 as Parse<'a>>::parse(input)?;
        let flags = <u32 as Parse<'a>>::parse(input)?;
        let _reserved1 = <u32 as Parse<'a>>::parse(input)?;
        let _reserved2 = <u32 as Parse<'a>>::parse(input)?;
        let _reserved3 = <u32 as Parse<'a>>::parse(input)?;
        let _reserved4 = <u32 as Parse<'a>>::parse(input)?;
        let length = <F32Bits as Parse<'a>>::parse(input)?;
        let offset = <F32Bits as Parse<'a>>::parse(input)?;
        let _reserved5 = <u8 as Parse<'a>>::parse(input)?;
        let _reserved6 = <u8 as Parse<'a>>::parse(input)?;
        let _reserved7 = <u8 as Parse<'a>>::parse(input)?;
        let _reserved8 = <u8 as Parse<'a>>::parse(input)?;
        let audio_data = <&'a [u8] as Parse<'a>>::parse(input)?;
        Ok(ASNDFile { voice_id, flags, _reserved1, _reserved2, _reserved3, _reserved4, length, offset, _reserved5, _reserved6, _reserved7, _reserved8, audio_data })
    }
}

} // verus!
