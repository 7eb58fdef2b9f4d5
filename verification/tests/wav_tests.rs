use bevy_uspsa::noise::{lcg_next, noise_bits, noise_seed};
use bevy_uspsa::wav::wav_bytes;

fn header(n: u32) -> Vec<u8> {
    let mut v = Vec::new();
    v.extend_from_slice(b"RIFF");
    v.extend_from_slice(&(36 + 2 * n).to_le_bytes());
    v.extend_from_slice(b"WAVE");
    v.extend_from_slice(b"fmt ");
    v.extend_from_slice(&16u32.to_le_bytes());
    v.extend_from_slice(&1u16.to_le_bytes());
    v.extend_from_slice(&1u16.to_le_bytes());
    v.extend_from_slice(&44_100u32.to_le_bytes());
    v.extend_from_slice(&88_200u32.to_le_bytes());
    v.extend_from_slice(&2u16.to_le_bytes());
    v.extend_from_slice(&16u16.to_le_bytes());
    v.extend_from_slice(b"data");
    v.extend_from_slice(&(2 * n).to_le_bytes());
    v
}

#[test]
fn empty_wav_is_just_the_header() {
    let v = wav_bytes(&[]);
    assert_eq!(v.len(), 44);
    assert_eq!(v, header(0));
}

#[test]
fn wav_samples_are_little_endian() {
    let v = wav_bytes(&[1, -1, 256, i16::MIN, i16::MAX]);
    assert_eq!(v.len(), 44 + 10);
    assert_eq!(&v[..44], &header(5)[..]);
    assert_eq!(&v[44..], &[1, 0, 0xff, 0xff, 0, 1, 0, 0x80, 0xff, 0x7f]);
}

#[test]
fn noise_generator_steps() {
    assert_eq!(noise_seed(0), 0x1234_5678);
    assert_eq!(noise_seed(1), 0x1234_5678 ^ 2_654_435_761u32);
    assert_eq!(noise_seed(3), 0x1234_5678 ^ 3u32.wrapping_mul(2_654_435_761));
    assert_eq!(lcg_next(0), 1_013_904_223);
    assert_eq!(lcg_next(1), 1_664_525 + 1_013_904_223);
    assert_eq!(lcg_next(u32::MAX), u32::MAX.wrapping_mul(1_664_525).wrapping_add(1_013_904_223));
    assert_eq!(noise_bits(u32::MAX), 0x7f_ffff);
    assert_eq!(noise_bits(1024), 2);
}
