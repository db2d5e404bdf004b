use firelight::daemon::{as_bytes, read_input, ByteOrder, WireError, READ_BYTES, READ_WORDS, WORD_BYTES};
use firelight::renderer::{frame_words, words_frame, LedColor};

#[test]
fn read_size_is_256_words() {
    assert_eq!(WORD_BYTES, 4);
    assert_eq!(READ_WORDS, 256);
    assert_eq!(READ_BYTES, 1024);
    assert_eq!(READ_BYTES, READ_WORDS * WORD_BYTES);
}

#[test]
fn words_are_encoded_in_the_given_order() {
    let words = [0x0012_3456u32, 0x00ab_cdef, 0xff00_0001];
    assert_eq!(
        as_bytes(&words, ByteOrder::LittleEndian),
        vec![0x56, 0x34, 0x12, 0x00, 0xef, 0xcd, 0xab, 0x00, 0x01, 0x00, 0x00, 0xff]
    );
    assert_eq!(
        as_bytes(&words, ByteOrder::BigEndian),
        vec![0x00, 0x12, 0x34, 0x56, 0x00, 0xab, 0xcd, 0xef, 0xff, 0x00, 0x00, 0x01]
    );
    assert_eq!(as_bytes(&[], ByteOrder::LittleEndian), Vec::<u8>::new());
}

#[test]
fn native_order_is_the_order_of_memory() {
    let words = [0x0102_0304u32, 0x00ff_8001];
    let mut expected = Vec::new();
    for w in words {
        expected.extend_from_slice(&w.to_ne_bytes());
    }
    assert_eq!(as_bytes(&words, ByteOrder::native()), expected);
    let by_hand = if 1u16.to_ne_bytes()[0] == 1 {
        ByteOrder::LittleEndian
    } else {
        ByteOrder::BigEndian
    };
    assert_eq!(ByteOrder::native(), by_hand);
}

#[test]
fn order_is_read_off_the_image_of_one() {
    assert_eq!(ByteOrder::of_image(1u32.to_le_bytes()), ByteOrder::LittleEndian);
    assert_eq!(ByteOrder::of_image(1u32.to_be_bytes()), ByteOrder::BigEndian);
    assert_eq!(ByteOrder::of_image(1u32.to_ne_bytes()), ByteOrder::native());
    assert_eq!(ByteOrder::of_image([1, 0, 0, 0]), ByteOrder::LittleEndian);
    assert_eq!(ByteOrder::of_image([0, 0, 0, 1]), ByteOrder::BigEndian);
}

#[test]
fn payload_of_whole_words_is_taken_in() {
    let mut buffer = [7u32; 256];
    let received = [0x56, 0x34, 0x12, 0x00, 0xef, 0xcd, 0xab, 0x00];
    assert_eq!(read_input(&received, &mut buffer, ByteOrder::LittleEndian), Ok(2));
    assert_eq!(buffer[0], 0x0012_3456);
    assert_eq!(buffer[1], 0x00ab_cdef);
    assert!(buffer[2..].iter().all(|w| *w == 7));
    assert_eq!(read_input(&received, &mut buffer, ByteOrder::BigEndian), Ok(2));
    assert_eq!(buffer[0], 0x5634_1200);
    assert_eq!(buffer[1], 0xefcd_ab00);
    assert!(buffer[2..].iter().all(|w| *w == 7));
}

#[test]
fn payload_that_ends_inside_a_word_is_refused() {
    for len in [1usize, 2, 3, 5, 6, 7, 1021, 1022, 1023] {
        let received = vec![0xaau8; len];
        let mut buffer = [7u32; 256];
        assert_eq!(
            read_input(&received, &mut buffer, ByteOrder::native()),
            Err(WireError::Misaligned(len))
        );
        assert!(buffer.iter().all(|w| *w == 7));
    }
}

#[test]
fn misaligned_payload_is_not_rounded_down() {
    let mut buffer = [0u32; 256];
    let r = read_input(&[1, 0, 0, 0, 2, 0, 0], &mut buffer, ByteOrder::LittleEndian);
    assert_ne!(r, Ok(1));
    assert!(r.is_err());
    assert_eq!(buffer[0], 0);
}

#[test]
fn empty_payload_holds_no_colors() {
    let mut buffer = [7u32; 256];
    assert_eq!(read_input(&[], &mut buffer, ByteOrder::native()), Ok(0));
    assert!(buffer.iter().all(|w| *w == 7));
}

#[test]
fn full_read_fills_the_buffer() {
    let words: Vec<u32> = (0..256u32).map(|i| i * 0x0001_0101).collect();
    let received = as_bytes(&words, ByteOrder::native());
    assert_eq!(received.len(), READ_BYTES);
    let mut buffer = [0u32; 256];
    assert_eq!(read_input(&received, &mut buffer, ByteOrder::native()), Ok(READ_WORDS));
    assert_eq!(buffer.to_vec(), words);
}

#[test]
fn frame_survives_the_wire() {
    let frame: Vec<LedColor> = (0..128u32)
        .map(|i| LedColor::from_u8_rgb([i as u8, (2 * i) as u8, (255 - i) as u8]))
        .collect();
    for order in [ByteOrder::LittleEndian, ByteOrder::BigEndian, ByteOrder::native()] {
        let bytes = as_bytes(&frame_words(&frame), order);
        assert_eq!(bytes.len(), 4 * frame.len());
        let mut buffer = [0u32; 256];
        let n = read_input(&bytes, &mut buffer, order).unwrap();
        assert_eq!(n, frame.len());
        assert_eq!(words_frame(&buffer[..n]), frame);
    }
}

#[test]
fn frame_split_on_a_word_boundary_arrives_whole() {
    let frame: Vec<LedColor> =
        (0..10u8).map(|i| LedColor::from_u8_rgb([i, 100 + i, 200 + i])).collect();
    let bytes = as_bytes(&frame_words(&frame), ByteOrder::native());
    let (first, second) = bytes.split_at(12);
    let mut buffer = [0u32; 256];
    let mut seen = Vec::new();
    let n = read_input(first, &mut buffer, ByteOrder::native()).unwrap();
    seen.extend(words_frame(&buffer[..n]));
    let n = read_input(second, &mut buffer, ByteOrder::native()).unwrap();
    seen.extend(words_frame(&buffer[..n]));
    assert_eq!(seen, frame);
}

#[test]
fn frame_split_inside_a_word_is_a_protocol_error() {
    let bytes = as_bytes(&[1, 2, 3], ByteOrder::native());
    let (first, _) = bytes.split_at(6);
    let mut buffer = [0u32; 256];
    assert_eq!(
        read_input(first, &mut buffer, ByteOrder::native()),
        Err(WireError::Misaligned(6))
    );
}

#[test]
fn wrong_order_does_not_round_trip() {
    let bytes = as_bytes(&[0x0012_3456], ByteOrder::LittleEndian);
    let mut buffer = [0u32; 4];
    assert_eq!(read_input(&bytes, &mut buffer, ByteOrder::BigEndian), Ok(1));
    assert_eq!(buffer[0], 0x5634_1200);
}
