use gw2_pf::formats::asnd;
use gw2_pf::formats::bidx::{BankFileNameData, BankIndexData, BankLanguageData, BIDX};
use gw2_pf::formats::bkck::BKCK;
use gw2_pf::formats::txtv::{TextPackVoice, TextPackVoices};
use gw2_pf::formats::{ABIX, ABNK, ASND};
use gw2_pf::parse::{
    select_version, ChunkIter, ChunkVariant, Error, Input, Parse, ParseMagicVariant,
    ParseVersioned,
};
use gw2_pf::pf::{
    ChunkHeader, Magic, PFHeader, PackFileReader, CHUNK_HEADER_SIZE, PF_FLAG_HAS_64BIT_PTRS,
    PF_HEADER_SIZE, PF_MAGIC,
};

const ABIX_TAG: u32 = 0x5849_4241;
const BIDX_TAG: u32 = 0x5844_4942;

fn container(flags: u16, header_size: u16, format: &[u8; 4]) -> Vec<u8> {
    let mut bytes = Vec::new();
    bytes.extend_from_slice(b"PF");
    bytes.extend_from_slice(&flags.to_le_bytes());
    bytes.extend_from_slice(&0u16.to_le_bytes());
    bytes.extend_from_slice(&header_size.to_le_bytes());
    bytes.extend_from_slice(format);
    bytes
}

fn chunk(magic: &[u8; 4], version: u16, payload: &[u8]) -> Vec<u8> {
    let mut bytes = Vec::new();
    bytes.extend_from_slice(magic);
    bytes.extend_from_slice(&((8 + payload.len()) as u32).to_le_bytes());
    bytes.extend_from_slice(&version.to_le_bytes());
    bytes.extend_from_slice(&16u16.to_le_bytes());
    bytes.extend_from_slice(&(payload.len() as u32).to_le_bytes());
    bytes.extend_from_slice(payload);
    bytes
}

fn le32(values: &[u32]) -> Vec<u8> {
    let mut out = Vec::new();
    for v in values {
        out.extend_from_slice(&v.to_le_bytes());
    }
    out
}

/// One language with two banks: the first has a file name, the second none.
fn bank_index_payload() -> Vec<u8> {
    let mut payload = le32(&[
        1, 4, // languages: one, right behind
        2, 4, // banks of the language: two, right behind
        8, // first bank: a name, behind the second bank
        0, // second bank: no name
    ]);
    payload.extend_from_slice(&[0x01, 0x6a, 0x02, 0x01, 0, 0]);
    payload
}

#[test]
fn the_constants_of_the_container() {
    assert_eq!(PF_MAGIC, 0x4650);
    assert_eq!(PF_FLAG_HAS_64BIT_PTRS, 4);
    assert_eq!(PF_HEADER_SIZE, 12);
    assert_eq!(CHUNK_HEADER_SIZE, 16);
    assert_eq!(<ABIX as Magic>::MAGIC, ABIX_TAG);
    assert_eq!(<BIDX as Magic>::MAGIC, BIDX_TAG);
    assert_eq!(<ABNK as Magic>::MAGIC, gw2_pf::fcc(b"ABNK"));
    assert_eq!(<BKCK as Magic>::MAGIC, gw2_pf::fcc(b"BKCK"));
    assert_eq!(<ASND as Magic>::MAGIC, gw2_pf::fcc(b"ASND"));
    assert_eq!(<asnd::ASND as Magic>::MAGIC, gw2_pf::fcc(b"ASND"));
}

#[test]
fn headers_are_read_field_by_field() {
    let bytes = container(4, 12, b"ABIX");
    let header = PFHeader::read(&bytes);
    assert_eq!(
        header,
        PFHeader { magic: 0x4650, flags: 4, _reserved: 0, header_size: 12, file_type: ABIX_TAG }
    );
    let bytes = chunk(b"BIDX", 3, &[1, 2, 3]);
    let header = ChunkHeader::read(&bytes);
    assert_eq!(
        header,
        ChunkHeader {
            magic: BIDX_TAG,
            next_chunk_offset: 11,
            version: 3,
            chunk_header_size: 16,
            descriptor_offset: 3,
        }
    );
}

#[test]
fn a_container_opens_when_its_format_matches() {
    let mut bytes = container(0, 12, b"ABIX");
    bytes.extend_from_slice(&[1, 2, 3]);
    let chunks = PackFileReader::<ABIX>::from_bytes(&bytes).unwrap();
    assert_eq!(chunks.input.remaining, &[1, 2, 3]);
    assert!(!chunks.input.is_64_bit);
}

#[test]
fn a_container_with_another_format_is_turned_away() {
    let bytes = container(0, 12, b"ABNK");
    let err = PackFileReader::<ABIX>::from_bytes(&bytes).err().unwrap();
    assert_eq!(
        err,
        Error::InvalidFileType { ty: "ABIX", expected: ABIX_TAG, actual: gw2_pf::fcc(b"ABNK") }
    );
    let err = PackFileReader::<ABNK>::from_bytes(&container(0, 12, b"ABIX")).err().unwrap();
    assert_eq!(
        err,
        Error::InvalidFileType { ty: "ABNK", expected: gw2_pf::fcc(b"ABNK"), actual: ABIX_TAG }
    );
    assert!(PackFileReader::<ABNK>::from_bytes(&bytes).is_ok());
}

#[test]
fn wrong_magic_echoes_both_tags() {
    assert_eq!(
        Error::wrong_magic::<ABIX>(7),
        Error::InvalidFileType { ty: "ABIX", expected: ABIX_TAG, actual: 7 }
    );
}

#[test]
fn a_container_without_the_tag_is_turned_away() {
    let mut bytes = container(0, 12, b"ABIX");
    bytes[0] = b'Q';
    let err = PackFileReader::<ABIX>::from_bytes(&bytes).err().unwrap();
    assert_eq!(err, Error::InvalidFileType { ty: "PFHeader", expected: 0x4650, actual: 0x4651 });
}

#[test]
fn a_cut_container_header_is_a_short_read() {
    let bytes = container(0, 12, b"ABIX");
    let err = PackFileReader::<ABIX>::from_bytes(&bytes[..11]).err().unwrap();
    assert_eq!(err, Error::DataTooShort { ty: Some("PFHeader"), required: 12, actual: 11 });
}

#[test]
fn a_header_longer_than_the_input_is_a_short_read() {
    let bytes = container(0, 40, b"ABIX");
    let err = PackFileReader::<ABIX>::from_bytes(&bytes).err().unwrap();
    assert_eq!(err, Error::DataTooShort { ty: None, required: 40, actual: 12 });
}

#[test]
fn the_flag_selects_wide_pointers() {
    let wide = container(4, 12, b"ABIX");
    let chunks = PackFileReader::<ABIX>::from_bytes(&wide).unwrap();
    assert!(chunks.input.is_64_bit);
    let narrow = container(0xfffb, 12, b"ABIX");
    let chunks = PackFileReader::<ABIX>::from_bytes(&narrow).unwrap();
    assert!(!chunks.input.is_64_bit);
}

#[test]
fn the_header_size_says_where_the_chunks_start() {
    let mut bytes = container(0, 14, b"ABIX");
    bytes.extend_from_slice(&[9, 9, 1, 2]);
    let chunks = PackFileReader::<ABIX>::from_bytes(&bytes).unwrap();
    assert_eq!(chunks.input.remaining, &[1, 2]);
}

#[test]
fn a_bank_index_is_decoded() {
    let mut bytes = container(0, 12, b"ABIX");
    bytes.extend_from_slice(&chunk(b"BIDX", 0, &bank_index_payload()));
    let mut chunks = PackFileReader::<ABIX>::from_bytes(&bytes).unwrap();
    let item = chunks.next().unwrap().unwrap();
    let index: &BankIndexData = item.inner().inner();
    assert_eq!(index.bank_language.len(), 1);
    let banks = &index.bank_language[0].bank_file_name;
    assert_eq!(banks.len(), 2);
    assert_eq!(banks[0].file_name.as_ref().unwrap().to_id(), 157442);
    assert!(banks[1].file_name.is_none());
    assert!(chunks.next().is_none());
}

#[test]
fn chunks_follow_one_another() {
    let mut bytes = container(0, 12, b"ABIX");
    bytes.extend_from_slice(&chunk(b"BIDX", 0, &le32(&[0, 0])));
    bytes.extend_from_slice(&chunk(b"BIDX", 0, &bank_index_payload()));
    let mut chunks = PackFileReader::<ABIX>::from_bytes(&bytes).unwrap();
    let first = chunks.next().unwrap().unwrap();
    assert!(first.inner().inner().bank_language.is_empty());
    let second = chunks.next().unwrap().unwrap();
    assert_eq!(second.inner().inner().bank_language.len(), 1);
    assert!(chunks.next().is_none());
}

#[test]
fn a_failed_chunk_does_not_end_the_walk() {
    let mut bytes = container(0, 12, b"ABIX");
    bytes.extend_from_slice(&chunk(b"QQQQ", 0, &le32(&[0, 0])));
    bytes.extend_from_slice(&chunk(b"BIDX", 9, &le32(&[0, 0])));
    bytes.extend_from_slice(&chunk(b"BIDX", 0, &le32(&[0, 0])));
    let mut chunks = PackFileReader::<ABIX>::from_bytes(&bytes).unwrap();
    assert_eq!(
        chunks.next().unwrap().err(),
        Some(Error::UnknownMagic { ty: "ABIX", actual: gw2_pf::fcc(b"QQQQ") })
    );
    assert_eq!(
        chunks.next().unwrap().err(),
        Some(Error::UnknownVersion { ty: "BIDX", actual: 9 })
    );
    assert!(chunks.next().unwrap().is_ok());
    assert!(chunks.next().is_none());
    assert!(chunks.next().is_none());
}

#[test]
fn fewer_bytes_than_a_header_end_the_walk() {
    let input = Input { remaining: &[0u8; 15], is_64_bit: false };
    let mut chunks: ChunkIter<ABIX> = ChunkIter::new(input);
    assert!(chunks.next().is_none());
    assert_eq!(chunks.input.remaining.len(), 15);
}

#[test]
fn a_payload_beyond_the_end_is_an_error_of_its_chunk() {
    let mut one = chunk(b"BIDX", 0, &le32(&[0, 0]));
    one[12] = 9; // the payload claims 9 bytes, 8 are there
    let input = Input { remaining: &one, is_64_bit: false };
    let mut chunks: ChunkIter<ABIX> = ABIX::parse_sequence(input);
    assert_eq!(
        chunks.next().unwrap().err(),
        Some(Error::DataTooShort { ty: None, required: 25, actual: 24 })
    );
    assert!(chunks.next().is_none());
}

#[test]
fn a_stride_beyond_the_end_exhausts_the_walk() {
    let mut one = chunk(b"BIDX", 0, &le32(&[0, 0]));
    one[4] = 200;
    one.extend_from_slice(&[0u8; 32]);
    let input = Input { remaining: &one, is_64_bit: false };
    let mut chunks: ChunkIter<ABIX> = ChunkIter::new(input);
    assert!(chunks.next().unwrap().is_ok());
    assert!(chunks.input.remaining.is_empty());
    assert!(chunks.next().is_none());
}

#[test]
fn the_stride_counts_from_behind_the_first_eight_bytes() {
    let mut one = chunk(b"BIDX", 0, &le32(&[0, 0]));
    one.extend_from_slice(&[7u8; 5]);
    let input = Input { remaining: &one, is_64_bit: false };
    let mut chunks: ChunkIter<ABIX> = ChunkIter::new(input);
    assert!(chunks.next().unwrap().is_ok());
    assert_eq!(chunks.input.remaining, &[7u8; 5]);
}

#[test]
fn version_255_of_a_decoder_for_1_and_2_is_unknown() {
    assert_eq!(
        select_version("Sample", &[1, 2], 255),
        Err(Error::UnknownVersion { ty: "Sample", actual: 255 })
    );
    assert_eq!(select_version("Sample", &[1, 2], 1), Ok(0));
    assert_eq!(select_version("Sample", &[1, 2], 2), Ok(1));
    assert_eq!(select_version("Sample", &[], 0), Err(Error::UnknownVersion { ty: "Sample", actual: 0 }));
    assert_eq!(select_version("Sample", &[3, 3], 3), Ok(0));
}

#[test]
fn a_chunk_knows_its_versions() {
    let payload = le32(&[0, 0]);
    let mut input = Input { remaining: &payload, is_64_bit: false };
    assert_eq!(
        <BIDX as ParseVersioned>::parse(255, &mut input).err(),
        Some(Error::UnknownVersion { ty: "BIDX", actual: 255 })
    );
    assert!(<BIDX as ParseVersioned>::parse(0, &mut input).is_ok());
    let mut input = Input { remaining: &payload, is_64_bit: false };
    assert_eq!(
        BKCK::parse_version(1, &mut input).err(),
        Some(Error::UnknownVersion { ty: "BKCK", actual: 1 })
    );
}

#[test]
fn a_chunk_goes_by_its_magic() {
    let payload = le32(&[0, 0]);
    let mut input = Input { remaining: &payload, is_64_bit: false };
    assert_eq!(
        <BIDX as ParseMagicVariant>::parse(ABIX_TAG, 0, &mut input).err(),
        Some(Error::UnknownMagic { ty: "BIDX", actual: ABIX_TAG })
    );
    assert!(<BIDX as ParseMagicVariant>::parse(BIDX_TAG, 0, &mut input).is_ok());
}

#[test]
fn the_records_of_a_bank_index_nest() {
    let payload = bank_index_payload();
    let mut input = Input { remaining: &payload, is_64_bit: false };
    let index = BankIndexData::parse(&mut input).unwrap();
    assert_eq!(input.remaining.len(), payload.len() - 8);
    let language: &BankLanguageData = &index.bank_language[0];
    let first: &BankFileNameData = &language.bank_file_name[0];
    assert_eq!(first.file_name.as_ref().unwrap().0.units(), &vec![0x6a01, 0x0102]);
}

#[test]
fn text_voices_are_pairs() {
    let payload = le32(&[2, 4, 100, 200, 101, 201]);
    let mut input = Input { remaining: &payload, is_64_bit: false };
    let voices = TextPackVoices::parse(&mut input).unwrap();
    assert_eq!(voices.mappings.len(), 2);
    assert_eq!(voices.mappings[1].text_id, 101);
    assert_eq!(voices.mappings[1].voice_id, 201);
    assert_eq!(<TextPackVoice as Parse>::binary_size().actual_size(true), Some(8));
}

fn waveform_payload() -> Vec<u8> {
    let mut payload = Vec::new();
    payload.extend_from_slice(&1.5f32.to_le_bytes());
    payload.extend_from_slice(&0.25f32.to_le_bytes());
    payload.extend_from_slice(&le32(&[0, 0, 0, 0xc0ffee, 44100, 1, 2, 0b101]));
    payload.extend_from_slice(&[3, 0, 0, 0, 2, 0, 0, 0]);
    // audio: 3 bytes, behind both windows' heads and the other window
    payload.extend_from_slice(&le32(&[3, 4 + 8]));
    payload.extend_from_slice(&le32(&[0, 0]));
    payload.extend_from_slice(&[0xff, 0xfb, 0x90]);
    payload
}

#[test]
fn a_sound_file_is_decoded() {
    let mut bytes = container(0, 12, b"ASND");
    bytes.extend_from_slice(&chunk(b"ASND", 2, &waveform_payload()));
    let mut chunks = PackFileReader::<ASND>::from_bytes(&bytes).unwrap();
    let item = chunks.next().unwrap().unwrap();
    let wave = item.inner().inner();
    assert_eq!(f32::from_bits(wave.length.0), 1.5);
    assert_eq!(f32::from_bits(wave.offset.0), 0.25);
    assert_eq!(wave.crc, 0xc0ffee);
    assert_eq!(wave.num_samples, 44100);
    assert_eq!(wave.loop_start, 1);
    assert_eq!(wave.loop_end, 2);
    assert_eq!(wave.flags, 0b101);
    assert_eq!(wave.format, 3);
    assert_eq!(wave.num_channels, 2);
    assert_eq!(wave.audio_data, &[0xff, 0xfb, 0x90]);
    assert!(wave.other_data.is_empty());
    assert!(chunks.next().is_none());
}

#[test]
fn a_sound_bank_holds_sound_files() {
    // the bank: four reserved words, the files, one more word
    let inner = {
        let mut file = container(0, 12, b"ASND");
        file.extend_from_slice(&chunk(b"ASND", 2, &waveform_payload()));
        file
    };
    let mut payload = le32(&[0, 0, 0, 0, 1, 8, 0]);
    // one file record of 44 bytes
    payload.extend_from_slice(&le32(&[404553, 1, 0, 0, 0, 0]));
    payload.extend_from_slice(&2.0f32.to_le_bytes());
    payload.extend_from_slice(&0.0f32.to_le_bytes());
    payload.extend_from_slice(&[0, 0, 0, 0]);
    payload.extend_from_slice(&le32(&[inner.len() as u32, 4]));
    payload.extend_from_slice(&inner);
    let mut bytes = container(0, 12, b"ABNK");
    bytes.extend_from_slice(&chunk(b"BKCK", 2, &payload));
    let mut chunks = PackFileReader::<ABNK>::from_bytes(&bytes).unwrap();
    let item = chunks.next().unwrap().unwrap();
    let bank = item.inner().inner();
    assert_eq!(bank.files.len(), 1);
    assert_eq!(bank.files[0].voice_id, 404553);
    assert_eq!(f32::from_bits(bank.files[0].length.0), 2.0);
    assert_eq!(bank.files[0].audio_data, &inner[..]);
    let mut sounds = PackFileReader::<ASND>::from_bytes(bank.files[0].audio_data).unwrap();
    let sound = sounds.next().unwrap().unwrap();
    assert_eq!(sound.inner().inner().audio_data, &[0xff, 0xfb, 0x90]);
    assert!(chunks.next().is_none());
}
