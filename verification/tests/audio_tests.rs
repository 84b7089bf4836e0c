use moly::audio::build_wav;

#[test]
fn test_build_wav_exact_bytes() {
    let samples: Vec<i16> = vec![0, 1, -1];
    let bytes = build_wav(&samples, 16000, 1).unwrap();
    assert_eq!(bytes.len(), 44 + 6);

    // RIFF chunk: tag, total length minus 8, format.
    assert_eq!(&bytes[0..4], b"RIFF");
    assert_eq!(&bytes[4..8], &(42u32).to_le_bytes());
    assert_eq!(&bytes[8..12], b"WAVE");

    // Format chunk: 16-byte PCM description.
    assert_eq!(&bytes[12..16], b"fmt ");
    assert_eq!(&bytes[16..20], &(16u32).to_le_bytes());
    assert_eq!(&bytes[20..22], &(1u16).to_le_bytes());
    assert_eq!(&bytes[22..24], &(1u16).to_le_bytes());
    assert_eq!(&bytes[24..28], &(16000u32).to_le_bytes());
    assert_eq!(&bytes[28..32], &(32000u32).to_le_bytes());
    assert_eq!(&bytes[32..34], &(2u16).to_le_bytes());
    assert_eq!(&bytes[34..36], &(16u16).to_le_bytes());

    // Data chunk: tag, sample byte count, the samples little-endian.
    assert_eq!(&bytes[36..40], b"data");
    assert_eq!(&bytes[40..44], &(6u32).to_le_bytes());
    assert_eq!(&bytes[44..46], &(0i16).to_le_bytes());
    assert_eq!(&bytes[46..48], &(1i16).to_le_bytes());
    assert_eq!(&bytes[48..50], &(-1i16).to_le_bytes());
}

#[test]
fn test_build_wav_stereo_byte_rate() {
    let bytes = build_wav(&vec![5i16, 6], 44100, 2).unwrap();
    assert_eq!(&bytes[22..24], &(2u16).to_le_bytes());
    assert_eq!(&bytes[24..28], &(44100u32).to_le_bytes());
    assert_eq!(&bytes[28..32], &(176400u32).to_le_bytes());
    assert_eq!(&bytes[32..34], &(4u16).to_le_bytes());
}
