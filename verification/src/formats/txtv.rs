//! The records that say which voice line speaks which text.

use vstd::prelude::*;
use crate::parse::{lemma_tail_of_tail, BinarySize, Error, Input, Parse, TypeLabel};

verus! {

/// Version 0 of the text voices: the voice of every text that has one.
#[derive(Debug)]
pub struct TextPackVoices {
    pub mappings: Vec<TextPackVoice>,
}

impl DeepView for TextPackVoices {
    type V = Seq<TextPackVoiceModel>;

    open spec fn deep_view(&self) -> Seq<TextPackVoiceModel> {
        self.mappings.deep_view()
    }
}

impl TypeLabel for TextPackVoices {
    open spec fn label_spec() -> &'static str {
        "TextPackVoices"
    }

    fn label() -> (name: &'static str) {
        "TextPackVoices"
    }
}

impl<'inp> Parse<'inp> for TextPackVoices {
    open spec fn binary_size_spec() -> BinarySize {
        BinarySize { fixed_bytes: 4, ptrs: 1, is_dynamic: false }
    }

    fn binary_size() -> (s: BinarySize) {
        let s = <Vec<TextPackVoice> as Parse>::binary_size();
        s
    }

    /// The fields one after another, in the order of their declaration.
    open spec fn decode(bytes: Seq<u8>, wide: bool) -> Result<(Seq<TextPackVoiceModel>, Seq<u8>), Error> {
        match <Vec<TextPackVoice> as Parse>::decode(bytes, wide) {
            Err(e) => Err(e),
            Ok((mappings, rest0)) => Ok((mappings, rest0)),
        }
    }

    proof fn lemma_decode_leaves_tail(bytes: Seq<u8>, wide: bool) {
        <Vec<TextPackVoice> as Parse>::lemma_decode_leaves_tail(bytes, wide);
        if let Ok((_, rest0)) = <Vec<TextPackVoice> as Parse>::decode(bytes, wide) {
        }
    }

    fn parse(input: &mut Input<'inp>) -> (r: Result<Self, Error>) {
        let mappings = <Vec<TextPackVoice> as Parse<'inp>>::parse(input)?;
        Ok(TextPackVoices { mappings })
    }
}

/// The voice line that speaks a text.
#[derive(Debug)]
pub struct TextPackVoice {
    pub text_id: u32,
    pub voice_id: u32,
}

/// The mathematical value of a [`TextPackVoice`].
pub struct TextPackVoiceModel {
    pub text_id: u32,
    pub voice_id: u32,
}

impl DeepView for TextPackVoice {
    type V = TextPackVoiceModel;

    open spec fn deep_view(&self) -> TextPackVoiceModel {
        TextPackVoiceModel {
            text_id: self.text_id.deep_view(),
            voice_id: self.voice_id.deep_view(),
        }
    }
}

impl TypeLabel for TextPackVoice {
    open spec fn label_spec() -> &'static str {
        "TextPackVoice"
    }

    fn label() -> (name: &'static str) {
        "TextPackVoice"
    }
}

impl<'inp> Parse<'inp> for TextPackVoice {
    open spec fn binary_size_spec() -> BinarySize {
        BinarySize { fixed_bytes: 8, ptrs: 0, is_dynamic: false }
    }

    fn binary_size() -> (s: BinarySize) {
        let s = <u32 as Parse>::binary_size();
        let s = s.add(&<u32 as Parse>::binary_size());
        s
    }

    /// The fields one after another, in the order of their declaration.
    open spec fn decode(bytes: Seq<u8>, wide: bool) -> Result<(TextPackVoiceModel, Seq<u8>), Error> {
        match <u32 as Parse>::decode(bytes, wide) {
            Err(e) => Err(e),
            Ok((text_id, rest0)) => match <u32 as Parse>::decode(rest0, wide) {
                Err(e) => Err(e),
                Ok((voice_id, rest1)) => Ok((TextPackVoiceModel { text_id, voice_id }, rest1)),
            },
        }
    }

    proof fn lemma_decode_leaves_tail(bytes: Seq<u8>, wide: bool) {
        <u32 as Parse>::lemma_decode_leaves_tail(bytes, wide);
        if let Ok((_, rest0)) = <u32 as Parse>::decode(bytes, wide) {
            <u32 as Parse>::lemma_decode_leaves_tail(rest0, wide);
            if let Ok((_, rest1)) = <u32 as Parse>::decode(rest0, wide) {
                lemma_tail_of_tail(rest1, rest0, bytes);
            }
        }
    }

    fn parse(input: &mut Input<'inp>) -> (r: Result<Self, Error>) {
        let text_id = <u32 as Parse<'inp>>::parse(input)?;
        let voice_id = <u32 as Parse<'inp>>::parse(input)?;
        Ok(TextPackVoice { text_id, voice_id })
    }
}

} // verus!
