use tcp_audio::error::StreamError;
use tcp_audio::wire::{f32_to_u8, u8_to_f32};

#[test]
fn bytes_decode_little_endian() {
    let bytes = [0x00, 0x00, 0x80, 0x3f, 0x01, 0x02, 0x03, 0x04];
    let words = u8_to_f32(&bytes).unwrap();
    assert_eq!(words, vec![0x3f80_0000, 0x0403_0201]);
    assert_eq!(f32::from_bits(words[0]), 1.0);
}

#[test]
fn samples_encode_little_endian() {
    let words = [(-2.5f32).to_bits(), 0x0403_0201];
    let bytes = f32_to_u8(&words);
    let mut expected = (-2.5f32).to_le_bytes().to_vec();
    expected.extend([0x01, 0x02, 0x03, 0x04]);
    assert_eq!(bytes, expected);
}

#[test]
fn samples_survive_the_wire() {
    let samples: Vec<u32> = [0.0f32, 1.0, -1.0, 0.5, f32::MAX, f32::MIN_POSITIVE].iter().map(|x| x.to_bits()).collect();
    assert_eq!(u8_to_f32(&f32_to_u8(&samples)), Ok(samples));
    assert_eq!(u8_to_f32(&[]), Ok(Vec::<u32>::new()));
    assert_eq!(f32_to_u8(&[]), Vec::<u8>::new());
}

#[test]
fn trailing_partial_sample_is_refused() {
    for len in [1usize, 2, 3, 5, 7, 301] {
        assert_eq!(u8_to_f32(&vec![0x11u8; len]), Err(StreamError::PartialSample));
    }
    assert_eq!(u8_to_f32(&[0u8; 300]).unwrap().len(), 75);
}
