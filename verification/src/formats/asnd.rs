//! The chunk that holds a waveform.

use vstd::prelude::*;
use crate::parse::{
    lemma_tail_of_tail, select_version, BinarySize, Error, Input, Parse, ParseMagicVariant, ParseVersioned, TypeLabel,
};
use crate::pf::Magic;
use crate::parse::ints::F32Bits;

verus! {

/// The waveform chunk, in any of its versions.
#[derive(Debug)]
pub enum ASND<'a> {
    V2(WaveformData<'a>),
}

impl<'a> DeepView for ASND<'a> {
    type V = WaveformDataModel;

    open spec fn deep_view(&self) -> WaveformDataModel {
        match self {
            ASND::V2(data) => data.deep_view(),
        }
    }
}

impl<'a> TypeLabel for ASND<'a> {
    open spec fn label_spec() -> &'static str {
        "ASND"
    }

    fn label() -> (name: &'static str) {
        "ASND"
    }
}

impl<'a> Magic for ASND<'a> {
    /// The characters `ASND`.
    const MAGIC: u32 = 0x444e_5341;
}

/// The tag of the chunk is the number that its four characters pack.
pub proof fn lemma_tag_of_asnd()
    ensures
        <ASND as Magic>::MAGIC == 0x444e_5341u32,
{
}

impl<'a> ParseVersioned<'a> for ASND<'a> {
    type Output = Self;

    /// Version 2 is the only one with a layout.
    open spec fn decode_version(version: u16, bytes: Seq<u8>, wide: bool) -> Result<
        (WaveformDataModel, Seq<u8>),
        Error,
    > {
        if version == 2 {
            <WaveformData<'a> as Parse>::decode(bytes, wide)
        } else {
            Err(Error::UnknownVersion { ty: "ASND", actual: version })
        }
    }

    fn parse(version: u16, input: &mut Input<'a>) -> (r: Result<Self, Error>) {
        Self::parse_version(version, input)
    }
}

impl<'a> ParseMagicVariant<'a> for ASND<'a> {
    /// The chunk goes by its own magic alone.
    open spec fn decode_variant(magic: u32, version: u16, bytes: Seq<u8>, wide: bool) -> Result<
        (WaveformDataModel, Seq<u8>),
        Error,
    > {
        if magic == <Self as Magic>::MAGIC {
            <Self as ParseVersioned>::decode_version(version, bytes, wide)
        } else {
            Err(Error::UnknownMagic { ty: "ASND", actual: magic })
        }
    }

    fn parse(magic: u32, version: u16, input: &mut Input<'a>) -> (r: Result<Self, Error>) {
        if magic == <Self as Magic>::MAGIC {
            Self::parse_version(version, input)
        } else {
            Err(Error::UnknownMagic { ty: Self::label(), actual: magic })
        }
    }
}

impl<'a> ASND<'a> {
    /// Decodes the chunk by its layout for `version`.
    pub fn parse_version(version: u16, input: &mut Input<'a>) -> (r: Result<Self, Error>)
        ensures
            final(input).is_64_bit == old(input).is_64_bit,
            match <Self as ParseVersioned>::decode_version(
                version,
                old(input).remaining@,
                old(input).is_64_bit,
            ) {
                Ok((value, rest)) => r is Ok && r->Ok_0.deep_view() == value && final(input).remaining@
                    == rest,
                Err(e) => r is Err && r->Err_0 == e,
            },
    {
        let known: [u16; 1] = [2];
        assert(known@.contains(version) <==> version == 2) by {
            assert(known@[0] == 2);
        }
        select_version(Self::label(), &known, version)?;
        let data = <WaveformData<'a> as Parse<'a>>::parse(input)?;
        Ok(ASND::V2(data))
    }

    /// The record that the chunk holds.
    pub fn inner(&self) -> (data: &WaveformData<'a>)
        ensures
            data.deep_view() == self.deep_view(),
    {
        match self {
            ASND::V2(data) => data,
        }
    }
}

/// Version 2 of the waveform, with its encoded samples.
#[derive(Debug)]
pub struct WaveformData<'a> {
    pub length: F32Bits,
    pub offset: F32Bits,
    pub _reserved_data: u32,
    pub _reserved1: u32,
    pub _reserved2: u32,
    pub crc: u32,
    pub num_samples: u32,
    pub loop_start: u32,
    pub loop_end: u32,
    pub flags: u32,
    pub format: u8,
    pub _reserved3: u8,
    pub _reserved4: u8,
    pub _reserved5: u8,
    pub num_channels: u8,
    pub _reserved6: u8,
    pub _reserved7: u8,
    pub _reserved8: u8,
    pub audio_data: &'a [u8],
    pub other_data: &'a [u8],
}

/// The mathematical value of a [`WaveformData`].
pub struct WaveformDataModel {
    pub length: u32,
    pub offset: u32,
    pub _reserved_data: u32,
    pub _reserved1: u32,
    pub _reserved2: u32,
    pub crc: u32,
    pub num_samples: u32,
    pub loop_start: u32,
    pub loop_end: u32,
    pub flags: u32,
    pub format: u8,
    pub _reserved3: u8,
    pub _reserved4: u8,
    pub _reserved5: u8,
    pub num_channels: u8,
    pub _reserved6: u8,
    pub _reserved7: u8,
    pub _reserved8: u8,
    pub audio_data: Seq<u8>,
    pub other_data: Seq<u8>,
}

impl<'a> DeepView for WaveformData<'a> {
    type V = WaveformDataModel;

    open spec fn deep_view(&self) -> WaveformDataModel {
        WaveformDataModel {
            length: self.length.deep_view(),
            offset: self.offset.deep_view(),
            _reserved_data: self._reserved_data.deep_view(),
            _reserved1: self._reserved1.deep_view(),
            _reserved2: self._reserved2.deep_view(),
            crc: self.crc.deep_view(),
            num_samples: self.num_samples.deep_view(),
            loop_start: self.loop_start.deep_view(),
            loop_end: self.loop_end.deep_view(),
            flags: self.flags.deep_view(),
            format: self.format.deep_view(),
            _reserved3: self._reserved3.deep_view(),
            _reserved4: self._reserved4.deep_view(),
            _reserved5: self._reserved5.deep_view(),
            num_channels: self.num_channels.deep_view(),
            _reserved6: self._reserved6.deep_view(),
            _reserved7: self._reserved7.deep_view(),
            _reserved8: self._reserved8.deep_view(),
            audio_data: self.audio_data.deep_view(),
            other_data: self.other_data.deep_view(),
        }
    }
}

impl<'a> TypeLabel for WaveformData<'a> {
    open spec fn label_spec() -> &'static str {
        "WaveformData"
    }

    fn label() -> (name: &'static str) {
        "WaveformData"
    }
}

impl<'a> Parse<'a> for WaveformData<'a> {
    open spec fn binary_size_spec() -> BinarySize {
        BinarySize { fixed_bytes: 56, ptrs: 2, is_dynamic: false }
    }

    fn binary_size() -> (s: BinarySize) {
        let s = <F32Bits as Parse>::binary_size();
        let s = s.add(&<F32Bits as Parse>::binary_size());
        let s = s.add(&<u32 as Parse>::binary_size());
        let s = s.add(&<u32 as Parse>::binary_size());
        let s = s.add(&<u32 as Parse>::binary_size());
        let s = s.add(&<u32 as Parse>::binary_size());
        let s = s.add(&<u32 as Parse>::binary_size());
        let s = s.add(&<u32 as Parse>::binary_size());
        let s = s.add(&<u32 as Parse>::binary_size());
        let s = s.add(&<u32 as Parse>::binary_size());
        let s = s.add(&<u8 as Parse>::binary_size());
        let s = s.add(&<u8 as Parse>::binary_size());
        let s = s.add(&<u8 as Parse>::binary_size());
        let s = s.add(&<u8 as Parse>::binary_size());
        let s = s.add(&<u8 as Parse>::binary_size());
        let s = s.add(&<u8 as Parse>::binary_size());
        let s = s.add(&<u8 as Parse>::binary_size());
        let s = s.add(&<u8 as Parse>::binary_size());
        let s = s.add(&<&'a [u8] as Parse>::binary_size());
        let s = s.add(&<&'a [u8] as Parse>::binary_size());
        s
    }

    /// The fields one after another, in the order of their declaration.
    open spec fn decode(bytes: Seq<u8>, wide: bool) -> Result<(WaveformDataModel, Seq<u8>), Error> {
        match <F32Bits as Parse>::decode(bytes, wide) {
            Err(e) => Err(e),
            Ok((length, rest0)) => match <F32Bits as Parse>::decode(rest0, wide) {
                Err(e) => Err(e),
                Ok((offset, rest1)) => match <u32 as Parse>::decode(rest1, wide) {
                    Err(e) => Err(e),
                    Ok((_reserved_data, rest2)) => match <u32 as Parse>::decode(rest2, wide) {
                        Err(e) => Err(e),
                        Ok((_reserved1, rest3)) => match <u32 as Parse>::decode(rest3, wide) {
                            Err(e) => Err(e),
                            Ok((_reserved2, rest4)) => match <u32 as Parse>::decode(rest4, wide) {
                                Err(e) => Err(e),
                                Ok((crc, rest5)) => match <u32 as Parse>::decode(rest5, wide) {
                                    Err(e) => Err(e),
                                    Ok((num_samples, rest6)) => match <u32 as Parse>::decode(rest6, wide) {
                                        Err(e) => Err(e),
                                        Ok((loop_start, rest7)) => match <u32 as Parse>::decode(rest7, wide) {
                                            Err(e) => Err(e),
                                            Ok((loop_end, rest8)) => match <u32 as Parse>::decode(rest8, wide) {
                                                Err(e) => Err(e),
                                                Ok((flags, rest9)) => match <u8 as Parse>::decode(rest9, wide) {
                                                    Err(e) => Err(e),
                                                    Ok((format, rest10)) => match <u8 as Parse>::decode(rest10, wide) {
                                                        Err(e) => Err(e),
                                                        Ok((_reserved3, rest11)) => match <u8 as Parse>::decode(rest11, wide) {
                                                            Err(e) => Err(e),
                                                            Ok((_reserved4, rest12)) => match <u8 as Parse>::decode(rest12, wide) {
                                                                Err(e) => Err(e),
                                                                Ok((_reserved5, rest13)) => match <u8 as Parse>::decode(rest13, wide) {
                                                                    Err(e) => Err(e),
                                                                    Ok((num_channels, rest14)) => match <u8 as Parse>::decode(rest14, wide) {
                                                                        Err(e) => Err(e),
                                                                        Ok((_reserved6, rest15)) => match <u8 as Parse>::decode(rest15, wide) {
                                                                            Err(e) => Err(e),
                                                                            Ok((_reserved7, rest16)) => match <u8 as Parse>::decode(rest16, wide) {
                                                                                Err(e) => Err(e),
                                                                                Ok((_reserved8, rest17)) => match <&'a [u8] as Parse>::decode(rest17, wide) {
                                                                                    Err(e) => Err(e),
                                                                                    Ok((audio_data, rest18)) => match <&'a [u8] as Parse>::decode(rest18, wide) {
                                                                                        Err(e) => Err(e),
                                                                                        Ok((other_data, rest19)) => Ok((WaveformDataModel { length, offset, _reserved_data, _reserved1, _reserved2, crc, num_samples, loop_start, loop_end, flags, format, _reserved3, _reserved4, _reserved5, num_channels, _reserved6, _reserved7, _reserved8, audio_data, other_data }, rest19)),
                                                                                    },
                                                                                },
                                                                            },
                                                                        },
                                                                    },
                                                                },
                                                            },
                                                        },
                                                    },
                                                },
                                            },
                                        },
                                    },
                                },
                            },
                        },
                    },
                },
            },
        }
    }

    #[verifier::rlimit(60)]
    proof fn lemma_decode_leaves_tail(bytes: Seq<u8>, wide: bool) {
        <F32Bits as Parse>::lemma_decode_leaves_tail(bytes, wide);
        if let Ok((_, rest0)) = <F32Bits as Parse>::decode(bytes, wide) {
            <F32Bits as Parse>::lemma_decode_leaves_tail(rest0, wide);
            if let Ok((_, rest1)) = <F32Bits as Parse>::decode(rest0, wide) {
                lemma_tail_of_tail(rest1, rest0, bytes);
                <u32 as Parse>::lemma_decode_leaves_tail(rest1, wide);
                if let Ok((_, rest2)) = <u32 as Parse>::decode(rest1, wide) {
                    lemma_tail_of_tail(rest2, rest1, bytes);
                    <u32 as Parse>::lemma_decode_leaves_tail(rest2, wide);
                    if let Ok((_, rest3)) = <u32 as Parse>::decode(rest2, wide) {
                        lemma_tail_of_tail(rest3, rest2, bytes);
                        <u32 as Parse>::lemma_decode_leaves_tail(rest3, wide);
                        if let Ok((_, rest4)) = <u32 as Parse>::decode(rest3, wide) {
                            lemma_tail_of_tail(rest4, rest3, bytes);
                            <u32 as Parse>::lemma_decode_leaves_tail(rest4, wide);
                            if let Ok((_, rest5)) = <u32 as Parse>::decode(rest4, wide) {
                                lemma_tail_of_tail(rest5, rest4, bytes);
                                <u32 as Parse>::lemma_decode_leaves_tail(rest5, wide);
                                if let Ok((_, rest6)) = <u32 as Parse>::decode(rest5, wide) {
                                    lemma_tail_of_tail(rest6, rest5, bytes);
                                    <u32 as Parse>::lemma_decode_leaves_tail(rest6, wide);
                                    if let Ok((_, rest7)) = <u32 as Parse>::decode(rest6, wide) {
                                        lemma_tail_of_tail(rest7, rest6, bytes);
                                        <u32 as Parse>::lemma_decode_leaves_tail(rest7, wide);
                                        if let Ok((_, rest8)) = <u32 as Parse>::decode(rest7, wide) {
                                            lemma_tail_of_tail(rest8, rest7, bytes);
                                            <u32 as Parse>::lemma_decode_leaves_tail(rest8, wide);
                                            if let Ok((_, rest9)) = <u32 as Parse>::decode(rest8, wide) {
                                                lemma_tail_of_tail(rest9, rest8, bytes);
                                                <u8 as Parse>::lemma_decode_leaves_tail(rest9, wide);
                                                if let Ok((_, rest10)) = <u8 as Parse>::decode(rest9, wide) {
                                                    lemma_tail_of_tail(rest10, rest9, bytes);
                                                    <u8 as Parse>::lemma_decode_leaves_tail(rest10, wide);
                                                    if let Ok((_, rest11)) = <u8 as Parse>::decode(rest10, wide) {
                                                        lemma_tail_of_tail(rest11, rest10, bytes);
                                                        <u8 as Parse>::lemma_decode_leaves_tail(rest11, wide);
                                                        if let Ok((_, rest12)) = <u8 as Parse>::decode(rest11, wide) {
                                                            lemma_tail_of_tail(rest12, rest11, bytes);
                                                            <u8 as Parse>::lemma_decode_leaves_tail(rest12, wide);
                                                            if let Ok((_, rest13)) = <u8 as Parse>::decode(rest12, wide) {
                                                                lemma_tail_of_tail(rest13, rest12, bytes);
                                                                <u8 as Parse>::lemma_decode_leaves_tail(rest13, wide);
                                                                if let Ok((_, rest14)) = <u8 as Parse>::decode(rest13, wide) {
                                                                    lemma_tail_of_tail(rest14, rest13, bytes);
                                                                    <u8 as Parse>::lemma_decode_leaves_tail(rest14, wide);
                                                                    if let Ok((_, rest15)) = <u8 as Parse>::decode(rest14, wide) {
                                                                        lemma_tail_of_tail(rest15, rest14, bytes);
                                                                        <u8 as Parse>::lemma_decode_leaves_tail(rest15, wide);
                                                                        if let Ok((_, rest16)) = <u8 as Parse>::decode(rest15, wide) {
                                                                            lemma_tail_of_tail(rest16, rest15, bytes);
                                                                            <u8 as Parse>::lemma_decode_leaves_tail(rest16, wide);
                                                                            if let Ok((_, rest17)) = <u8 as Parse>::decode(rest16, wide) {
                                                                                lemma_tail_of_tail(rest17, rest16, bytes);
                                                                                <&'a [u8] as Parse>::lemma_decode_leaves_tail(rest17, wide);
                                                                                if let Ok((_, rest18)) = <&'a [u8] as Parse>::decode(rest17, wide) {
                                                                                    lemma_tail_of_tail(rest18, rest17, bytes);
                                                                                    <&'a [u8] as Parse>::lemma_decode_leaves_tail(rest18, wide);
                                                                                    if let Ok((_, rest19)) = <&'a [u8] as Parse>::decode(rest18, wide) {
                                                                                        lemma_tail_of_tail(rest19, rest18, bytes);
                                                                                    }
                                                                                }
                                                                            }
                                                                        }
                                                                    }
                                                                }
                                                            }
                                                        }
                                                    }
                                                }
                                            }
                                        }
                                    }
                                }
                            }
                        }
                    }
                }
            }
        }
    }

    fn parse(input: &mut Input<'a>) -> (r: Result<Self, Error>) {
        let length = <F32Bits as Parse<'a>>::parse(input)?;
        let offset = <F32Bits as Parse<'a>>::parse(input)?;
        let _reserved_data = <u32 as Parse<'a>>::parse(input)?;
        let _reserved1 = <u32 as Parse<'a>>::parse(input)?;
        let _reserved2 = <u32 as Parse<'a>>::parse(input)?;
        let crc = <u32 as Parse<'a>>::parse(input)?;
        let num_samples = <u32 as Parse<'a>>::parse(input)?;
        let loop_start = <u32 as Parse<'a>>::parse(input)?;
        let loop_end = <u32 as Parse<'a>>::parse(input)?;
        let flags = <u32 as Parse<'a>>::parse(input)?;
        let format = <u8 as Parse<'a>>::parse(input)?;
        let _reserved3 = <u8 as Parse<'a>>::parse(input)?;
        let _reserved4 = <u8 as Parse<'a>>::parse(input)?;
        let _reserved5 = <u8 as Parse<'a>>::parse(input)?;
        let num_channels = <u8 as Parse<'a>>::parse(input)?;
        let _reserved6 = <u8 as Parse<'a>>::parse(input)?;
        let _reserved7 = <u8 as Parse<'a>>::parse(input)?;
        let _reserved8 = <u8 as Parse<'a>>::parse(input)?;
        let audio_data = <&'a [u8] as Parse<'a>>::parse(input)?;
        let other_data = <&'a [u8] as Parse<'a>>::parse(input)?;
        Ok(WaveformData { length, offset, _reserved_data, _reserved1, _reserved2, crc, num_samples, loop_start, loop_end, flags, format, _reserved3, _reserved4, _reserved5, num_channels, _reserved6, _reserved7, _reserved8, audio_data, other_data })
    }
}

} // verus!
