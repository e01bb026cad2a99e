use mp4_atom::{
    Decode, Encode, Stss, Stsz, Stts, SttsEntry, Stz2, Subs, SubsEntry, SubsSubsample,
    SubsSubsampleSize,
};

#[test]
fn test_stss() {
    let expected = Stss {
        entries: vec![1, 61, 121, 181, 241, 301, 361, 421, 481],
    };
    let mut buf = Vec::new();
    expected.encode(&mut buf).unwrap();

    let mut buf = buf.as_slice();
    let decoded = Stss::decode(&mut buf).unwrap();
    assert_eq!(decoded, expected);
}

#[test]
fn test_stts() {
    let expected = Stts {
        entries: vec![
            SttsEntry {
                sample_count: 29726,
                sample_delta: 1024,
            },
            SttsEntry {
                sample_count: 1,
                sample_delta: 512,
            },
        ],
    };
    let mut buf = Vec::new();
    expected.encode(&mut buf).unwrap();

    let mut buf = buf.as_slice();
    let decoded = Stts::decode(&mut buf).unwrap();
    assert_eq!(decoded, expected);
}

#[test]
fn test_stz2_8() {
    let expected = Stz2 {
        entry_sizes: vec![15, 16, 3],
    };
    let mut buf = Vec::new();
    expected.encode(&mut buf).unwrap();

    let mut buf = buf.as_slice();
    assert_eq!(
        buf,
        vec![
            0x00, 0x00, 0x00, 23, b's', b't', b'z', b'2', 0x00, 0x00, 0x00, 0x00, 0x00, 0x00,
            0x00, 0x08, 0x00, 0x00, 0x00, 0x03, 0x0f, 0x10, 0x03
        ]
    );
    let decoded = Stz2::decode(&mut buf).unwrap();
    assert_eq!(decoded, expected);
}

#[test]
fn test_stz2_4() {
    let expected = Stz2 {
        entry_sizes: vec![15, 3, 6],
    };
    let mut buf = Vec::new();
    expected.encode(&mut buf).unwrap();

    let mut buf = buf.as_slice();
    assert_eq!(
        buf,
        vec![
            0x00, 0x00, 0x00, 22, b's', b't', b'z', b'2', 0x00, 0x00, 0x00, 0x00, 0x00, 0x00,
            0x00, 0x04, 0x00, 0x00, 0x00, 0x03, 0xf3, 0x60
        ]
    );
    let decoded = Stz2::decode(&mut buf).unwrap();
    assert_eq!(decoded, expected);
}

#[test]
fn test_stz2_4_even() {
    let expected = Stz2 {
        entry_sizes: vec![15, 3, 6, 8],
    };
    let mut buf = Vec::new();
    expected.encode(&mut buf).unwrap();

    let mut buf = buf.as_slice();
    assert_eq!(
        buf,
        vec![
            0x00, 0x00, 0x00, 22, b's', b't', b'z', b'2', 0x00, 0x00, 0x00, 0x00, 0x00, 0x00,
            0x00, 0x04, 0x00, 0x00, 0x00, 0x04, 0xf3, 0x68
        ]
    );
    let decoded = Stz2::decode(&mut buf).unwrap();
    assert_eq!(decoded, expected);
}

#[test]
fn test_stz2_16() {
    let expected = Stz2 {
        entry_sizes: vec![255, 256, 65535],
    };
    let mut buf = Vec::new();
    expected.encode(&mut buf).unwrap();

    let mut buf = buf.as_slice();
    assert_eq!(
        buf,
        vec![
            0x00, 0x00, 0x00, 26, b's', b't', b'z', b'2', 0x00, 0x00, 0x00, 0x00, 0x00, 0x00,
            0x00, 0x10, 0x00, 0x00, 0x00, 0x03, 0x00, 0xff, 0x01, 0x00, 0xff, 0xff,
        ]
    );
    let decoded = Stz2::decode(&mut buf).unwrap();
    assert_eq!(decoded, expected);
}

// The subs atom of the MPEG file format conformance file
// uvvu/Solekai007_1920_29_1x1_v7clear.uvu.
const SUBS: &[u8] = &[
    0x00, 0x00, 0x00, 0x16, 0x73, 0x75, 0x62, 0x73, 0x00, 0x00, 0x00, 0x00, 0x00, 0x00, 0x00,
    0x01, 0x00, 0x00, 0x00, 0x01, 0x00, 0x00,
];

#[test]
fn subs_decodes_from_bytes_correctly() {
    let mut buf: &[u8] = SUBS;
    let subs = Subs::decode(&mut buf).expect("subs should decode successfully");
    assert_eq!(
        subs,
        Subs {
            flags: [0, 0, 0],
            entries: vec![SubsEntry {
                sample_delta: 1,
                subsamples: vec![],
            }],
        }
    )
}

// A shortened subs atom of the MPEG file format conformance file
// nalu/hevc/subs_tile_hvc1.mp4, with subsamples to decode and encode.
const SUBS_COMPLEX: &[u8] = &[
    0x00, 0x00, 0x00, 0x9C, 0x73, 0x75, 0x62, 0x73, 0x00, 0x00, 0x00, 0x02, 0x00, 0x00, 0x00,
    0x02, 0x00, 0x00, 0x00, 0x00, 0x00, 0x08, 0x0F, 0x97, 0x00, 0x00, 0x00, 0x00, 0x00, 0x00,
    0x05, 0x52, 0x00, 0x00, 0x00, 0x00, 0x00, 0x00, 0x05, 0xA3, 0x00, 0x00, 0x00, 0x00, 0x00,
    0x00, 0x0B, 0x88, 0x00, 0x00, 0x00, 0x00, 0x00, 0x00, 0x07, 0xA3, 0x00, 0x00, 0x00, 0x00,
    0x00, 0x00, 0x05, 0xF5, 0x00, 0x00, 0x00, 0x00, 0x00, 0x00, 0x03, 0x4A, 0x00, 0x00, 0x00,
    0x00, 0x00, 0x00, 0x05, 0x6A, 0x00, 0x00, 0x00, 0x00, 0x00, 0x00, 0x00, 0x00, 0x00, 0x01,
    0x00, 0x08, 0x00, 0xC2, 0x00, 0x00, 0x00, 0x00, 0x00, 0x00, 0x00, 0xAB, 0x00, 0x00, 0x00,
    0x00, 0x00, 0x00, 0x02, 0xE0, 0x00, 0x00, 0x00, 0x00, 0x00, 0x00, 0x02, 0xDE, 0x00, 0x00,
    0x00, 0x00, 0x00, 0x00, 0x05, 0xBE, 0x00, 0x00, 0x00, 0x00, 0x00, 0x00, 0x01, 0x4A, 0x00,
    0x00, 0x00, 0x00, 0x00, 0x00, 0x00, 0x96, 0x00, 0x00, 0x00, 0x00, 0x00, 0x00, 0x03, 0xF6,
    0x00, 0x00, 0x00, 0x00, 0x00, 0x00,
];

#[test]
fn subs_decodes_from_bytes_and_encodes_to_bytes_correctly_with_more_complex_example() {
    let mut buf: &[u8] = SUBS_COMPLEX;
    let subs = Subs {
        flags: [0, 0, 2],
        entries: vec![
            SubsEntry {
                sample_delta: 0,
                subsamples: vec![
                    SubsSubsample {
                        size: SubsSubsampleSize::U16(3991),
                        priority: 0,
                        discardable: false,
                        codec_specific_parameters: 0u32.to_be_bytes().to_vec(),
                    },
                    SubsSubsample {
                        size: SubsSubsampleSize::U16(1362),
                        priority: 0,
                        discardable: false,
                        codec_specific_parameters: 0u32.to_be_bytes().to_vec(),
                    },
                    SubsSubsample {
                        size: SubsSubsampleSize::U16(1443),
                        priority: 0,
                        discardable: false,
                        codec_specific_parameters: 0u32.to_be_bytes().to_vec(),
                    },
                    SubsSubsample {
                        size: SubsSubsampleSize::U16(2952),
                        priority: 0,
                        discardable: false,
                        codec_specific_parameters: 0u32.to_be_bytes().to_vec(),
                    },
                    SubsSubsample {
                        size: SubsSubsampleSize::U16(1955),
                        priority: 0,
                        discardable: false,
                        codec_specific_parameters: 0u32.to_be_bytes().to_vec(),
                    },
                    SubsSubsample {
                        size: SubsSubsampleSize::U16(1525),
                        priority: 0,
                        discardable: false,
                        codec_specific_parameters: 0u32.to_be_bytes().to_vec(),
                    },
                    SubsSubsample {
                        size: SubsSubsampleSize::U16(842),
                        priority: 0,
                        discardable: false,
                        codec_specific_parameters: 0u32.to_be_bytes().to_vec(),
                    },
                    SubsSubsample {
                        size: SubsSubsampleSize::U16(1386),
                        priority: 0,
                        discardable: false,
                        codec_specific_parameters: 0u32.to_be_bytes().to_vec(),
                    },
                ],
            },
            SubsEntry {
                sample_delta: 1,
                subsamples: vec![
                    SubsSubsample {
                        size: SubsSubsampleSize::U16(194),
                        priority: 0,
                        discardable: false,
                        codec_specific_parameters: 0u32.to_be_bytes().to_vec(),
                    },
                    SubsSubsample {
                        size: SubsSubsampleSize::U16(171),
                        priority: 0,
                        discardable: false,
                        codec_specific_parameters: 0u32.to_be_bytes().to_vec(),
                    },
                    SubsSubsample {
                        size: SubsSubsampleSize::U16(736),
                        priority: 0,
                        discardable: false,
                        codec_specific_parameters: 0u32.to_be_bytes().to_vec(),
                    },
                    SubsSubsample {
                        size: SubsSubsampleSize::U16(734),
                        priority: 0,
                        discardable: false,
                        codec_specific_parameters: 0u32.to_be_bytes().to_vec(),
                    },
                    SubsSubsample {
                        size: SubsSubsampleSize::U16(1470),
                        priority: 0,
                        discardable: false,
                        codec_specific_parameters: 0u32.to_be_bytes().to_vec(),
                    },
                    SubsSubsample {
                        size: SubsSubsampleSize::U16(330),
                        priority: 0,
                        discardable: false,
                        codec_specific_parameters: 0u32.to_be_bytes().to_vec(),
                    },
                    SubsSubsample {
                        size: SubsSubsampleSize::U16(150),
                        priority: 0,
                        discardable: false,
                        codec_specific_parameters: 0u32.to_be_bytes().to_vec(),
                    },
                    SubsSubsample {
                        size: SubsSubsampleSize::U16(1014),
                        priority: 0,
                        discardable: false,
                        codec_specific_parameters: 0u32.to_be_bytes().to_vec(),
                    },
                ],
            },
        ],
    };
    let decoded = Subs::decode(&mut buf).expect("subs should decode successfully");
    assert_eq!(subs, decoded);
    let mut encoded = Vec::new();
    subs.encode(&mut encoded)
        .expect("encode should be successful");
    assert_eq!(SUBS_COMPLEX, &encoded);
}

#[test]
fn test_stsz_same_size() {
    let expected = Stsz {
        sample_sizes: vec![1165, 1165, 1165, 1165],
    };
    let mut buf = Vec::new();
    expected.encode(&mut buf).unwrap();

    let mut buf = buf.as_slice();
    let decoded = Stsz::decode(&mut buf).unwrap();
    assert_eq!(decoded, expected);
}

#[test]
fn test_stsz_many_sizes() {
    let expected = Stsz {
        sample_sizes: vec![1165, 11, 11, 8545, 10126, 10866, 9643, 9351, 7730],
    };
    let mut buf = Vec::new();
    expected.encode(&mut buf).unwrap();

    let mut buf = buf.as_slice();
    let decoded = Stsz::decode(&mut buf).unwrap();
    assert_eq!(decoded, expected);
}

