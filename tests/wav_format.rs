use wav::wav::{
    samples_from_le_bytes, write_little_endian_u16, write_little_endian_u32, WavFormat,
    MAX_SAMPLE_RATE,
};

fn encode(left: Vec<i16>, right: Vec<i16>, sample_rate: u32) -> Vec<u8> {
    let mut w = WavFormat::new(left, right, sample_rate);
    w.write();
    w.contents().clone()
}

fn u32_at(b: &[u8], i: usize) -> u32 {
    u32::from_le_bytes([b[i], b[i + 1], b[i + 2], b[i + 3]])
}

#[test]
fn little_endian_u16_low_byte_first() {
    let mut c = vec![9u8];
    write_little_endian_u16(&mut c, 0x1234);
    assert_eq!(c, vec![9, 0x34, 0x12]);
}

#[test]
fn little_endian_u32_low_byte_first() {
    let mut c = Vec::new();
    write_little_endian_u32(&mut c, 0x1234_5678);
    assert_eq!(c, vec![0x78, 0x56, 0x34, 0x12]);
    write_little_endian_u32(&mut c, u32::MAX);
    assert_eq!(&c[4..], &[0xff, 0xff, 0xff, 0xff]);
}

#[test]
fn two_frames_at_44100() {
    let f = encode(vec![100, 200], vec![-100, -200], 44100);
    let expected: Vec<u8> = vec![
        b'R', b'I', b'F', b'F', 44, 0, 0, 0, b'W', b'A', b'V', b'E', //
        b'f', b'm', b't', b' ', 16, 0, 0, 0, 1, 0, 2, 0, //
        0x44, 0xAC, 0x00, 0x00, 0x10, 0xB1, 0x02, 0x00, 4, 0, 0, 0, //
        b'd', b'a', b't', b'a', 8, 0, 0, 0, //
        0x64, 0x00, 0x9C, 0xFF, 0xC8, 0x00, 0x38, 0xFF,
    ];
    assert_eq!(f, expected);
    assert_eq!(f.len(), 52);
    assert_eq!(&f[24..28], &[0x44, 0xAC, 0x00, 0x00]);
    assert_eq!(u32_at(&f, 28), 176400);
    assert_eq!(u32_at(&f, 40), 8);
}

#[test]
fn empty_channels() {
    let f = encode(vec![], vec![], 8000);
    assert_eq!(f.len(), 44);
    assert_eq!(u32_at(&f, 4), 36);
    assert_eq!(u32_at(&f, 40), 0);
}

#[test]
fn unequal_channels_stop_at_the_shorter() {
    let f = encode(vec![1, 2, 3], vec![-1], 22050);
    assert_eq!(u32_at(&f, 40), 4);
    assert_eq!(f.len(), 48);
    assert_eq!(u32_at(&f, 4), 40);
    assert_eq!(&f[44..], &[0x01, 0x00, 0xFF, 0xFF]);

    let g = encode(vec![7], vec![5, 6, 7, 8], 22050);
    assert_eq!(u32_at(&g, 40), 4);
    assert_eq!(&g[44..], &[0x07, 0x00, 0x05, 0x00]);
}

#[test]
fn tags_and_sizes_for_several_lengths() {
    for n in [0usize, 1, 5, 100] {
        let left: Vec<i16> = (0..n).map(|i| i as i16 * 3 - 7).collect();
        let right: Vec<i16> = (0..n).map(|i| -(i as i16)).collect();
        let f = encode(left, right, 48000);
        assert_eq!(&f[0..4], b"RIFF");
        assert_eq!(&f[8..12], b"WAVE");
        assert_eq!(&f[12..16], b"fmt ");
        assert_eq!(&f[36..40], b"data");
        assert_eq!(u32_at(&f, 4) as usize, f.len() - 8);
        assert_eq!(u32_at(&f, 40) as usize, f.len() - 44);
        assert_eq!(u32_at(&f, 40) as usize, n * 4);
        assert_eq!(u32_at(&f, 24), 48000);
    }
}

#[test]
fn rates_for_several_sample_rates() {
    for sr in [1u32, 8000, 44100, 96000, MAX_SAMPLE_RATE] {
        let f = encode(vec![0], vec![0], sr);
        assert_eq!(u32_at(&f, 24), sr);
        assert_eq!(u32_at(&f, 28) as u64, sr as u64 * 4);
        assert_eq!(u32_at(&f, 32), 4);
    }
    let f = encode(vec![], vec![], MAX_SAMPLE_RATE);
    assert_eq!(u32_at(&f, 28), 0xFFFF_FFFC);
}

#[test]
fn extreme_samples() {
    let f = encode(vec![i16::MIN, -1], vec![i16::MAX, 0], 1000);
    assert_eq!(&f[44..], &[0x00, 0x80, 0xFF, 0x7F, 0xFF, 0xFF, 0x00, 0x00]);
}

#[test]
fn steps_build_the_same_file() {
    let mut w = WavFormat::new(vec![100, 200], vec![-100, -200], 44100);
    w.write_header();
    assert_eq!(w.contents().len(), 44);
    assert_eq!(u32_at(w.contents(), 4), 0);
    assert_eq!(u32_at(w.contents(), 40), 0);
    w.encode_samples();
    assert_eq!(w.contents().len(), 52);
    assert_eq!(u32_at(w.contents(), 40), 0);
    w.finalize();
    assert_eq!(u32_at(w.contents(), 4), 44);
    assert_eq!(u32_at(w.contents(), 40), 8);
    assert_eq!(w.contents().clone(), encode(vec![100, 200], vec![-100, -200], 44100));
}

#[test]
fn write_replaces_the_buffer() {
    let mut w = WavFormat::new(vec![5], vec![6], 16000);
    w.write();
    let first = w.contents().clone();
    w.write();
    assert_eq!(w.contents().clone(), first);
    assert_eq!(w.sample_rate(), 16000);
}

#[test]
fn samples_read_from_le_bytes() {
    let s = samples_from_le_bytes(&vec![0x64, 0x00, 0x9C, 0xFF, 0x00, 0x80, 0x01]);
    assert_eq!(s, vec![100, -100, i16::MIN]);
    assert_eq!(samples_from_le_bytes(&vec![]), Vec::<i16>::new());
    assert_eq!(samples_from_le_bytes(&vec![0xFF]), Vec::<i16>::new());
}

#[test]
fn read_samples_encode_back_to_the_same_bytes() {
    let left_bytes = vec![0x10u8, 0x20, 0xF0, 0xFF];
    let right_bytes = vec![0x01u8, 0x80, 0x7F, 0x00];
    let f = encode(samples_from_le_bytes(&left_bytes), samples_from_le_bytes(&right_bytes), 8000);
    assert_eq!(&f[44..], &[0x10, 0x20, 0x01, 0x80, 0xF0, 0xFF, 0x7F, 0x00]);
}
