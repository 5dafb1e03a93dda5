use gw2_pf::bytes::{is_zero_prefix, read_u16, read_u32, read_u64, text_eq};
use gw2_pf::parse::ints::{F32Bits, F64Bits};
use gw2_pf::parse::{BinarySize, Error, Input, Parse};
use gw2_pf::{fcc, tcc};

fn narrow(bytes: &[u8]) -> Input<'_> {
    Input { remaining: bytes, is_64_bit: false }
}

fn wide(bytes: &[u8]) -> Input<'_> {
    Input { remaining: bytes, is_64_bit: true }
}

#[test]
fn character_codes_are_little_endian() {
    assert_eq!(tcc(b"PF"), 0x4650);
    assert_eq!(fcc(b"ABIX"), 0x5849_4241);
    assert_eq!(fcc(b"BIDX"), 0x5844_4942);
}

#[test]
fn reads_at_an_offset() {
    let bytes = [0xffu8, 0x34, 0x12, 0x78, 0x56, 0x34, 0x12, 0xef, 0xcd, 0xab, 0x89];
    assert_eq!(read_u16(&bytes, 1), 0x1234);
    assert_eq!(read_u32(&bytes, 3), 0x1234_5678);
    assert_eq!(read_u64(&bytes, 3), 0x89ab_cdef_1234_5678);
}

#[test]
fn zero_prefix() {
    let bytes = [0u8, 0, 0, 1];
    assert!(is_zero_prefix(&bytes, 3));
    assert!(!is_zero_prefix(&bytes, 4));
    assert!(is_zero_prefix(&bytes, 0));
}

#[test]
fn texts_compare_by_content() {
    assert!(text_eq("byte", "byte"));
    assert!(!text_eq("byte", "byte3"));
    assert!(!text_eq("word", "ward"));
    assert!(text_eq("", ""));
}

#[test]
fn unsigned_numbers_decode_and_advance() {
    let bytes = [0x78u8, 0x56, 0x34, 0x12, 0xaa];
    let mut input = narrow(&bytes);
    assert_eq!(u32::parse(&mut input), Ok(0x1234_5678));
    assert_eq!(input.remaining, &[0xaa]);
    assert_eq!(u8::parse(&mut input), Ok(0xaa));
    assert!(input.remaining.is_empty());

    let mut input = narrow(&bytes);
    assert_eq!(u16::parse(&mut input), Ok(0x5678));
    assert_eq!(input.remaining.len(), 3);

    let eight = [1u8, 2, 3, 4, 5, 6, 7, 8];
    let mut input = narrow(&eight);
    assert_eq!(u64::parse(&mut input), Ok(0x0807_0605_0403_0201));
    assert!(input.remaining.is_empty());
}

#[test]
fn signed_numbers_are_twos_complement() {
    assert_eq!(i8::parse(&mut narrow(&[0x80])), Ok(-128));
    assert_eq!(i8::parse(&mut narrow(&[0x7f])), Ok(127));
    assert_eq!(i16::parse(&mut narrow(&[0xfe, 0xff])), Ok(-2));
    assert_eq!(i32::parse(&mut narrow(&[0, 0, 0, 0x80])), Ok(i32::MIN));
    assert_eq!(i32::parse(&mut narrow(&[0xff, 0xff, 0xff, 0x7f])), Ok(i32::MAX));
    assert_eq!(i64::parse(&mut narrow(&[0xff; 8])), Ok(-1));
    assert_eq!(i64::parse(&mut narrow(&[5, 0, 0, 0, 0, 0, 0, 0])), Ok(5));
}

#[test]
fn floats_keep_their_bits() {
    let one = 1.0f32.to_le_bytes();
    let got = F32Bits::parse(&mut narrow(&one)).unwrap();
    assert_eq!(got, F32Bits(0x3f80_0000));
    assert_eq!(f32::from_bits(got.0), 1.0);
    let half = 0.5f64.to_le_bytes();
    let got = F64Bits::parse(&mut narrow(&half)).unwrap();
    assert_eq!(f64::from_bits(got.0), 0.5);
}

#[test]
fn short_reads_carry_the_counts() {
    let bytes = [1u8, 2, 3];
    let mut input = narrow(&bytes);
    assert_eq!(
        u32::parse(&mut input),
        Err(Error::DataTooShort { ty: Some("u32"), required: 4, actual: 3 })
    );
    assert_eq!(input.remaining.len(), 3);
    assert_eq!(
        u64::parse(&mut narrow(&bytes)),
        Err(Error::DataTooShort { ty: Some("u64"), required: 8, actual: 3 })
    );
    assert_eq!(
        u16::parse(&mut narrow(&bytes[..1])),
        Err(Error::DataTooShort { ty: Some("u16"), required: 2, actual: 1 })
    );
    assert_eq!(
        u8::parse(&mut narrow(&[])),
        Err(Error::DataTooShort { ty: Some("u8"), required: 1, actual: 0 })
    );
    assert_eq!(
        i16::parse(&mut narrow(&bytes[..1])),
        Err(Error::DataTooShort { ty: Some("i16"), required: 2, actual: 1 })
    );
    assert_eq!(
        F32Bits::parse(&mut narrow(&bytes)),
        Err(Error::DataTooShort { ty: Some("f32"), required: 4, actual: 3 })
    );
}

#[test]
fn to_short_names_the_type_and_its_size() {
    assert_eq!(
        Error::to_short::<u32>(3),
        Error::DataTooShort { ty: Some("u32"), required: 4, actual: 3 }
    );
    assert_eq!(
        Error::to_short::<u64>(0),
        Error::DataTooShort { ty: Some("u64"), required: 8, actual: 0 }
    );
}

#[test]
fn size_descriptors_add_up() {
    assert_eq!(BinarySize::fixed(4), BinarySize { fixed_bytes: 4, ptrs: 0, is_dynamic: false });
    assert_eq!(BinarySize::ptrs(2), BinarySize { fixed_bytes: 0, ptrs: 2, is_dynamic: false });
    assert_eq!(BinarySize::dynamic(), BinarySize { fixed_bytes: 0, ptrs: 0, is_dynamic: true });
    let both = BinarySize::fixed(4).add(&BinarySize::ptrs(1));
    assert_eq!(both, BinarySize { fixed_bytes: 4, ptrs: 1, is_dynamic: false });
    assert_eq!(both.actual_size(false), Some(8));
    assert_eq!(both.actual_size(true), Some(12));
    let open = both.add(&BinarySize::dynamic());
    assert!(open.is_dynamic);
    assert_eq!(open.actual_size(false), None);
    assert_eq!(<u32 as Parse>::binary_size(), BinarySize::fixed(4));
    assert_eq!(<Vec<u32> as Parse>::binary_size().actual_size(true), Some(12));
    assert_eq!(<Option<u8> as Parse>::binary_size().actual_size(false), Some(4));
    assert_eq!(<&[u8] as Parse>::binary_size().actual_size(false), Some(8));
}

#[test]
fn a_second_view_starts_further_on() {
    let bytes = [1u8, 2, 3, 4];
    let input = wide(&bytes);
    let second = input.clone_with_offset(3).unwrap();
    assert_eq!(second.remaining, &[4]);
    assert!(second.is_64_bit);
    assert_eq!(input.remaining.len(), 4);
    assert!(input.clone_with_offset(4).unwrap().remaining.is_empty());
    assert_eq!(
        input.clone_with_offset(5).err(),
        Some(Error::DataTooShort { ty: None, required: 5, actual: 4 })
    );
}

#[test]
fn narrow_pointers_resolve_from_the_end_of_their_field() {
    let bytes = [12u8, 0, 0, 0, 0xaa, 0xbb];
    let mut input = narrow(&bytes);
    assert_eq!(input.eat_offset(), Ok(8));
    assert_eq!(input.remaining, &[0xaa, 0xbb]);
}

#[test]
fn wide_pointers_resolve_from_the_end_of_their_field() {
    let bytes = [12u8, 0, 0, 0, 0, 0, 0, 0, 0xaa, 0xbb];
    let mut input = wide(&bytes);
    assert_eq!(input.eat_offset(), Ok(4));
    assert_eq!(input.remaining, &[0xaa, 0xbb]);
}

#[test]
fn the_null_pointer_resolves_to_zero() {
    assert_eq!(narrow(&[0, 0, 0, 0]).eat_offset(), Ok(0));
    assert_eq!(wide(&[0; 8]).eat_offset(), Ok(0));
}

#[test]
fn a_pointer_into_its_own_field_is_not_supported() {
    assert_eq!(narrow(&[3, 0, 0, 0]).eat_offset(), Err(Error::NotSupported));
    assert_eq!(wide(&[7, 0, 0, 0, 0, 0, 0, 0]).eat_offset(), Err(Error::NotSupported));
    assert_eq!(narrow(&[4, 0, 0, 0]).eat_offset(), Ok(0));
    assert_eq!(wide(&[8, 0, 0, 0, 0, 0, 0, 0]).eat_offset(), Ok(0));
}

#[test]
fn a_cut_pointer_is_a_short_read() {
    assert_eq!(
        narrow(&[1, 0, 0]).eat_offset(),
        Err(Error::DataTooShort { ty: Some("u32"), required: 4, actual: 3 })
    );
    assert_eq!(
        wide(&[1, 0, 0, 0]).eat_offset(),
        Err(Error::DataTooShort { ty: Some("u64"), required: 8, actual: 4 })
    );
}

#[test]
fn resolution_does_not_depend_on_the_length_of_the_buffer() {
    for extra in [0usize, 1, 7, 100, 4096] {
        let mut bytes = vec![20u8, 0, 0, 0, 0, 0, 0, 0];
        bytes.extend(std::iter::repeat(0x5a).take(extra));
        assert_eq!(narrow(&bytes).eat_offset(), Ok(16));
        assert_eq!(wide(&bytes).eat_offset(), Ok(12));
    }
}

#[test]
fn the_target_lies_raw_bytes_from_the_start_of_the_field() {
    let mut bytes = vec![0u8; 32];
    bytes[0] = 10;
    bytes[10] = 0x77;
    let mut input = narrow(&bytes);
    let offset = input.eat_offset().unwrap();
    assert_eq!(input.remaining[offset], 0x77);
    let mut input = wide(&bytes);
    let offset = input.eat_offset().unwrap();
    assert_eq!(input.remaining[offset], 0x77);
}
