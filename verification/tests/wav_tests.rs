use flappy_rust::wav::build_wav;

#[test]
fn build_wav_writes_header_and_samples() {
    let bytes = build_wav(&[1, -1], 44_100);
    let expected: Vec<u8> = vec![
        b'R', b'I', b'F', b'F', 40, 0, 0, 0, b'W', b'A', b'V', b'E', b'f', b'm', b't', b' ', 16,
        0, 0, 0, 1, 0, 1, 0, 0x44, 0xAC, 0, 0, 0x88, 0x58, 0x01, 0, 2, 0, 16, 0, b'd', b'a',
        b't', b'a', 4, 0, 0, 0, 1, 0, 0xFF, 0xFF,
    ];
    assert_eq!(bytes, expected);
}

#[test]
fn build_wav_of_no_samples_is_header_only() {
    let bytes = build_wav(&[], 8_000);
    assert_eq!(bytes.len(), 44);
    assert_eq!(&bytes[4..8], &[36, 0, 0, 0]);
    assert_eq!(&bytes[24..28], &[0x40, 0x1F, 0, 0]);
    assert_eq!(&bytes[28..32], &[0x80, 0x3E, 0, 0]);
    assert_eq!(&bytes[40..44], &[0, 0, 0, 0]);
}

#[test]
fn build_wav_samples_read_back() {
    let samples: Vec<i16> = vec![0, 1, -1, 255, 256, -256, i16::MAX, i16::MIN, 12345, -12345];
    let bytes = build_wav(&samples, 44_100);
    assert_eq!(bytes.len(), 44 + 2 * samples.len());
    let riff = u32::from_le_bytes([bytes[4], bytes[5], bytes[6], bytes[7]]);
    assert_eq!(riff as usize, bytes.len() - 8);
    let data = u32::from_le_bytes([bytes[40], bytes[41], bytes[42], bytes[43]]);
    assert_eq!(data as usize, 2 * samples.len());
    for (i, s) in samples.iter().enumerate() {
        let got = i16::from_le_bytes([bytes[44 + 2 * i], bytes[45 + 2 * i]]);
        assert_eq!(got, *s);
    }
}
