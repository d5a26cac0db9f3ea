use rxdp::ByteAligned;

#[test]
fn test_byte_align_numbers() {
    let expected = vec![100, 0, 0, 0, 0, 0, 0, 0];
    let expected_big = vec![100, 0, 0, 0, 0, 0, 0, 0, 0, 0, 0, 0, 0, 0, 0, 0];

    assert_eq!(100u8.align(), expected);
    assert_eq!(100u16.align(), expected);
    assert_eq!(100u32.align(), expected);
    assert_eq!(100u64.align(), expected);
    assert_eq!(100u128.align(), expected_big);
    assert_eq!(100usize.align(), expected);

    assert_eq!(100i8.align(), expected);
    assert_eq!(100i16.align(), expected);
    assert_eq!(100i32.align(), expected);
    assert_eq!(100i64.align(), expected);
    assert_eq!(100i128.align(), expected_big);
    assert_eq!(100isize.align(), expected);
}

#[test]
fn test_byte_from_aligned_numbers() {
    let chunk = vec![100, 0, 0, 0, 0, 0, 0, 0];
    let chunk_big = vec![100, 0, 0, 0, 0, 0, 0, 0, 0, 0, 0, 0, 0, 0, 0, 0];

    assert_eq!(100u8, u8::from_aligned(&chunk));
    assert_eq!(100u16, u16::from_aligned(&chunk));
    assert_eq!(100u32, u32::from_aligned(&chunk));
    assert_eq!(100u64, u64::from_aligned(&chunk));
    assert_eq!(100u128, u128::from_aligned(&chunk_big));
    assert_eq!(100usize, usize::from_aligned(&chunk));

    assert_eq!(100u8, u8::from_aligned(&chunk));
    assert_eq!(100u16, u16::from_aligned(&chunk));
    assert_eq!(100u32, u32::from_aligned(&chunk));
    assert_eq!(100u64, u64::from_aligned(&chunk));
    assert_eq!(100i128, i128::from_aligned(&chunk_big));
    assert_eq!(100usize, usize::from_aligned(&chunk));
}

#[test]
fn test_align_example() {
    assert_eq!(101u32.align(), vec![101, 0, 0, 0, 0, 0, 0, 0]);
    assert_eq!(101u8, u8::from_aligned(&vec![101, 0, 0, 0, 0, 0, 0, 0]));
}

#[test]
fn test_negative_numbers_are_padded_with_zeros() {
    assert_eq!((-1i8).align(), vec![255, 0, 0, 0, 0, 0, 0, 0]);
    assert_eq!((-2i16).align(), vec![254, 255, 0, 0, 0, 0, 0, 0]);
    assert_eq!((-2i32).align(), vec![254, 255, 255, 255, 0, 0, 0, 0]);
    assert_eq!((-1i64).align(), vec![255u8; 8]);
    assert_eq!((-1i128).align(), vec![255u8; 16]);
    assert_eq!(-1i8, i8::from_aligned(&(-1i8).align()));
    assert_eq!(i16::MIN, i16::from_aligned(&i16::MIN.align()));
    assert_eq!(-2i32, i32::from_aligned(&(-2i32).align()));
    assert_eq!(i64::MIN, i64::from_aligned(&i64::MIN.align()));
    assert_eq!(-7isize, isize::from_aligned(&(-7isize).align()));
    assert_eq!(i128::MIN, i128::from_aligned(&i128::MIN.align()));
}

#[test]
fn test_only_the_leading_bytes_of_a_slot_count() {
    assert_eq!(7u8, u8::from_aligned(&[7, 1, 2, 3, 4, 5, 6, 7]));
    assert_eq!(-1i8, i8::from_aligned(&[255, 1, 2, 3, 4, 5, 6, 7]));
    assert_eq!(0x0201u16, u16::from_aligned(&[1, 2, 9, 9, 9, 9, 9, 9]));
    assert_eq!(-2i16, i16::from_aligned(&[254, 255, 255, 255, 255, 255, 255, 255]));
    assert_eq!(0x04030201u32, u32::from_aligned(&[1, 2, 3, 4, 9, 9, 9, 9]));
    assert_eq!(-2i32, i32::from_aligned(&[254, 255, 255, 255, 255, 255, 255, 255]));
    assert_eq!(-2i32, i32::from_aligned(&[254, 255, 255, 255, 0, 0, 0, 0]));
}

#[test]
fn test_round_trip_every_width() {
    assert_eq!(u8::MAX, u8::from_aligned(&u8::MAX.align()));
    assert_eq!(u16::MAX, u16::from_aligned(&u16::MAX.align()));
    assert_eq!(0x1234_5678u32, u32::from_aligned(&0x1234_5678u32.align()));
    assert_eq!(u64::MAX - 5, u64::from_aligned(&(u64::MAX - 5).align()));
    assert_eq!(u128::MAX - 9, u128::from_aligned(&(u128::MAX - 9).align()));
    assert_eq!(0x0102_0304u32.align(), vec![4, 3, 2, 1, 0, 0, 0, 0]);
}

#[test]
fn test_slot_lengths_are_multiples_of_eight() {
    assert_eq!(100u8.align().len(), 8);
    assert_eq!(100u16.align().len(), 8);
    assert_eq!(100u32.align().len(), 8);
    assert_eq!(100u64.align().len(), 8);
    assert_eq!(100u128.align().len(), 16);
    assert_eq!(100i128.align().len(), 16);
}
