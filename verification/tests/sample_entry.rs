use mp4_atom::moov::trak::mdia::minf::stbl::stsd::vp09::Vp09 as Vp09Box;
use mp4_atom::{
    Atom, Btrt, Cmpd, Component, Decode, Encode, Error, FontEntry, FourCC, Ftab, MetaData,
    PlainText, RgbaColor, Tx3g, UncC, UncompressedComponent, Uri, UriI, Urim, Visual, Vlab, Vp09,
    VpcC, Vpcc, VttC, Wvtt,
};

#[test]
fn test_tx3g() {
    let expected = Tx3g {
        data_reference_index: 1,
        display_flags: 0,
        horizontal_justification: 1,
        vertical_justification: -1,
        bg_color_rgba: RgbaColor {
            red: 0,
            green: 0,
            blue: 0,
            alpha: 255,
        },
        box_record: [0, 0, 0, 0],
        style_record: [0, 0, 0, 0, 0, 1, 0, 16, 255, 255, 255, 255],
        ftab: None,
    };
    let mut buf = Vec::new();
    expected.encode(&mut buf).unwrap();

    let mut buf = buf.as_slice();
    let decoded = Tx3g::decode(&mut buf).unwrap();
    assert_eq!(decoded, expected);
}

// From the MPEG file format conformance test suite: isobmff/09_text.mp4
const ENCODED_TX3G_09: &[u8] = &[
    0x00, 0x00, 0x00, 0x40, 0x74, 0x78, 0x33, 0x67, 0x00, 0x00, 0x00, 0x00, 0x00, 0x00, 0x00,
    0x01, 0x00, 0x04, 0x00, 0x00, 0x01, 0xff, 0xff, 0x00, 0x00, 0xff, 0x00, 0x00, 0x00, 0x00,
    0x00, 0x3c, 0x01, 0x90, 0x00, 0x00, 0x00, 0x00, 0x00, 0x01, 0x00, 0x12, 0xff, 0xff, 0xff,
    0xff, 0x00, 0x00, 0x00, 0x12, 0x66, 0x74, 0x61, 0x62, 0x00, 0x01, 0x00, 0x01, 0x05, 0x53,
    0x65, 0x72, 0x69, 0x66,
];

fn get_reference_mpeg_09_tx3g() -> Tx3g {
    Tx3g {
        data_reference_index: 1,
        display_flags: 0x00040000,
        horizontal_justification: 1,
        vertical_justification: -1,
        bg_color_rgba: RgbaColor {
            red: 0xFF,
            green: 0x00,
            blue: 0x00,
            alpha: 0xFF,
        },
        box_record: [0, 0, 60, 400],
        style_record: [0, 0, 0, 0, 0, 1, 0, 18, 255, 255, 255, 255],
        ftab: Some(Ftab {
            font_entries: vec![FontEntry {
                font_id: 1,
                font: "Serif".into(),
            }],
        }),
    }
}

#[test]
fn test_mpeg_09_text_decode() {
    let mut buf: &[u8] = ENCODED_TX3G_09;
    let tx3g = Tx3g::decode(&mut buf).expect("failed to decode tx3g");
    assert_eq!(tx3g, get_reference_mpeg_09_tx3g());
}

#[test]
fn test_mpeg_09_text_encode() {
    let tx3g = get_reference_mpeg_09_tx3g();
    let mut buf = Vec::new();
    tx3g.encode(&mut buf).unwrap();
    assert_eq!(buf.as_slice(), ENCODED_TX3G_09);
}

const ENCODED_CMPD: &[u8] = &[
    0x00, 0x00, 0x00, 0x12, 0x63, 0x6d, 0x70, 0x64, 0x00, 0x00, 0x00, 0x03, 0x00, 0x04, 0x00,
    0x05, 0x00, 0x06,
];

const ENCODED_UNCC: &[u8] = &[
    0x00, 0x00, 0x00, 0x3b, 0x75, 0x6e, 0x63, 0x43, 0x00, 0x00, 0x00, 0x00, 0x00, 0x00, 0x00,
    0x00, 0x00, 0x00, 0x00, 0x03, 0x00, 0x00, 0x07, 0x00, 0x00, 0x00, 0x01, 0x07, 0x00, 0x00,
    0x00, 0x02, 0x07, 0x00, 0x00, 0x00, 0x01, 0x00, 0x00, 0x00, 0x00, 0x00, 0x00, 0x00, 0x00,
    0x00, 0x00, 0x00, 0x00, 0x00, 0x00, 0x00, 0x00, 0x00, 0x00, 0x00, 0x00, 0x00, 0x00,
];

#[test]
fn test_cmpd_decode() {
    let mut buf: &[u8] = ENCODED_CMPD;

    let cmpd = Cmpd::decode(&mut buf).expect("failed to decode cmpd");

    assert_eq!(
        cmpd,
        Cmpd {
            components: vec![
                Component {
                    component_type: 4,
                    component_type_uri: None
                },
                Component {
                    component_type: 5,
                    component_type_uri: None
                },
                Component {
                    component_type: 6,
                    component_type_uri: None
                }
            ]
        },
    );
}

#[test]
fn test_cmpd_encode() {
    let cmpd = Cmpd {
        components: vec![
            Component {
                component_type: 4,
                component_type_uri: None,
            },
            Component {
                component_type: 5,
                component_type_uri: None,
            },
            Component {
                component_type: 6,
                component_type_uri: None,
            },
        ],
    };

    let mut buf = Vec::new();
    cmpd.encode(&mut buf).unwrap();

    assert_eq!(buf.as_slice(), ENCODED_CMPD);
}

fn reference_uncc() -> UncC {
    UncC::V0 {
        profile: FourCC::new(b"\0\0\0\0"),
        components: vec![
            UncompressedComponent {
                component_index: 0,
                component_bit_depth_minus_one: 7,
                component_format: 0,
                component_align_size: 0,
            },
            UncompressedComponent {
                component_index: 1,
                component_bit_depth_minus_one: 7,
                component_format: 0,
                component_align_size: 0,
            },
            UncompressedComponent {
                component_index: 2,
                component_bit_depth_minus_one: 7,
                component_format: 0,
                component_align_size: 0,
            },
        ],
        sampling_type: 0,
        interleave_type: 1,
        block_size: 0,
        components_little_endian: false,
        block_pad_lsb: false,
        block_little_endian: false,
        block_reversed: false,
        pad_unknown: false,
        pixel_size: 0,
        row_align_size: 0,
        tile_align_size: 0,
        num_tile_cols_minus_one: 0,
        num_tile_rows_minus_one: 0,
    }
}

#[test]
fn test_uncc_decode() {
    let mut buf: &[u8] = ENCODED_UNCC;

    let uncc = UncC::decode(&mut buf).expect("failed to decode uncC");

    assert_eq!(uncc, reference_uncc());
}

#[test]
fn test_uncc_encode() {
    let uncc = reference_uncc();

    let mut buf = Vec::new();
    uncc.encode(&mut buf).unwrap();

    assert_eq!(buf.as_slice(), ENCODED_UNCC);
}

#[test]
fn test_urim_roundtrip() {
    let urim = Urim {
        metadata: MetaData {
            data_reference_index: 1,
        },
        the_label: Uri {
            the_uri: "urn:example:uri-metadata".into(),
        },
        init: Some(UriI {
            uri_initialization_data: vec![1, 2, 3, 4],
        }),
        btrt: Some(Btrt {
            buffer_size_db: 1,
            max_bitrate: 2000,
            avg_bitrate: 400,
        }),
    };

    let mut buf = Vec::new();
    urim.encode(&mut buf).unwrap();

    let decoded = Urim::decode(&mut buf.as_slice()).expect("failed to decode urim");
    assert_eq!(decoded, urim);
}

#[test]
fn test_urim_roundtrip_no_init() {
    let urim = Urim {
        metadata: MetaData {
            data_reference_index: 1,
        },
        the_label: Uri {
            the_uri: "https://example.com/schema.xsd".into(),
        },
        init: None,
        btrt: None,
    };

    let mut buf = Vec::new();
    urim.encode(&mut buf).unwrap();

    let decoded = Urim::decode(&mut buf.as_slice()).expect("failed to decode urim");
    assert_eq!(decoded, urim);
}

#[test]
fn test_urim_missing_uri() {
    let mut buf: Vec<u8> = Vec::new();
    buf.extend_from_slice(&0u32.to_be_bytes()); // reserved
    buf.extend_from_slice(&0u16.to_be_bytes()); // reserved
    buf.extend_from_slice(&1u16.to_be_bytes()); // data_reference_index

    let err = Urim::decode_body(buf.as_slice()).unwrap_err();
    assert!(matches!(err, Error::OutOfBounds));
}

#[test]
fn vp09_test_vpcc() {
    let expected = Vp09Box {
        visual: Visual {
            width: 1920,
            height: 1080,
            ..Default::default()
        },
        vpcc: Vpcc::default(),
    };
    let mut buf = Vec::new();
    expected.encode(&mut buf).unwrap();

    let mut buf = buf.as_slice();
    let decoded = Vp09Box::decode(&mut buf).unwrap();
    assert_eq!(decoded, expected);
}

#[test]
fn vpcc_box_test_vpcc() {
    let expected = Vpcc {
        profile: 0,
        level: 0x1F,
        bit_depth: 8,
        chroma_subsampling: 0,
        video_full_range_flag: false,
        color_primaries: 0,
        transfer_characteristics: 0,
        matrix_coefficients: 0,
        codec_initialization_data_size: 0,
    };
    let mut buf = Vec::new();
    expected.encode(&mut buf).unwrap();

    let mut buf = buf.as_slice();
    let decoded = Vpcc::decode(&mut buf).unwrap();
    assert_eq!(decoded, expected);
}

#[test]
fn test_vp09() {
    let expected = Vp09 {
        visual: Visual {
            width: 1920,
            height: 1080,
            ..Default::default()
        },
        vpcc: VpcC::default(),
    };
    let mut buf = Vec::new();
    expected.encode(&mut buf).unwrap();

    let mut buf = buf.as_slice();
    let decoded = Vp09::decode(&mut buf).unwrap();
    assert_eq!(decoded, expected);
}

#[test]
fn vpcc_test_vpcc() {
    let expected = VpcC {
        profile: 0,
        level: 0x1F,
        bit_depth: 8,
        chroma_subsampling: 0,
        video_full_range_flag: false,
        color_primaries: 0,
        transfer_characteristics: 0,
        matrix_coefficients: 1,
        codec_initialization_data: vec![],
    };
    let mut buf = Vec::new();
    expected.encode(&mut buf).unwrap();

    let mut buf = buf.as_slice();
    let decoded = VpcC::decode(&mut buf).unwrap();
    assert_eq!(decoded, expected);
}

#[test]
fn test_vpcc_chroma_subsampling() {
    for chroma_subsampling in 0..=3 {
        let expected = VpcC {
            profile: if chroma_subsampling < 2 { 0 } else { 1 },
            level: 0x1F,
            bit_depth: 8,
            chroma_subsampling,
            video_full_range_flag: false,
            color_primaries: 1,
            transfer_characteristics: 1,
            matrix_coefficients: 1,
            codec_initialization_data: vec![],
        };
        let mut buf = Vec::new();
        expected.encode(&mut buf).unwrap();

        let mut buf = buf.as_slice();
        let decoded = VpcC::decode(&mut buf).unwrap();
        assert_eq!(decoded, expected);
    }
}

#[test]
fn test_vpcc_rejects_reserved_chroma_subsampling() {
    for chroma_subsampling in 4..=u8::MAX {
        let vpcc = VpcC {
            chroma_subsampling,
            ..Default::default()
        };

        assert!(matches!(vpcc.encode(&mut Vec::new()), Err(Error::Reserved)));
    }
}

#[test]
fn test_vpcc_12_bit() {
    let expected = VpcC {
        profile: 2,
        level: 62,
        bit_depth: 12,
        chroma_subsampling: 3,
        video_full_range_flag: false,
        color_primaries: 0,
        transfer_characteristics: 0,
        matrix_coefficients: 0,
        codec_initialization_data: vec![],
    };
    let mut buf = Vec::new();
    expected.encode(&mut buf).unwrap();

    let mut buf = buf.as_slice();
    let decoded = VpcC::decode(&mut buf).unwrap();
    assert_eq!(decoded, expected);
}

#[test]
fn test_vpcc_rejects_rgb_subsampling() {
    let vpcc = VpcC {
        chroma_subsampling: 1,
        matrix_coefficients: 0,
        ..Default::default()
    };

    assert!(matches!(
        vpcc.encode(&mut Vec::new()),
        Err(Error::InvalidCombination(
            "Matrix coefficient 0 (RGB) is only valid with chroma subsampling 3 (4:4:4)"
        ))
    ));
}

// from MPEG File Format Conformance suite, 16_vtt.mp4
const ENCODED_WVTT: &[u8] = &[
    0x00, 0x00, 0x00, 0x3d, 0x77, 0x76, 0x74, 0x74, 0x00, 0x00, 0x00, 0x00, 0x00, 0x00, 0x00,
    0x01, 0x00, 0x00, 0x00, 0x2d, 0x76, 0x74, 0x74, 0x43, 0x57, 0x45, 0x42, 0x56, 0x54, 0x54,
    0x0a, 0x53, 0x6f, 0x6d, 0x65, 0x20, 0x64, 0x75, 0x6d, 0x6d, 0x79, 0x20, 0x68, 0x65, 0x61,
    0x64, 0x65, 0x72, 0x20, 0x69, 0x6e, 0x66, 0x6f, 0x72, 0x6d, 0x61, 0x74, 0x69, 0x6f, 0x6e,
    0x0a,
];

#[test]
fn test_wvtt_decode() {
    let mut buf: &[u8] = ENCODED_WVTT;

    let wvtt = Wvtt::decode(&mut buf).expect("failed to decode wvtt");

    assert_eq!(
        wvtt,
        Wvtt {
            plaintext: PlainText {
                data_reference_index: 1
            },
            config: VttC {
                config: "WEBVTT\nSome dummy header information\n".into()
            },
            label: None,
            btrt: None,
        }
    );
}

#[test]
fn test_wvtt_encode() {
    let wvtt = Wvtt {
        plaintext: PlainText {
            data_reference_index: 1,
        },
        config: VttC {
            config: "WEBVTT\nSome dummy header information\n".into(),
        },
        label: None,
        btrt: None,
    };

    let mut buf = Vec::new();
    wvtt.encode(&mut buf).unwrap();

    assert_eq!(buf.as_slice(), ENCODED_WVTT);
}

#[test]
fn test_round_trip_with_label() {
    let wvtt = Wvtt {
        plaintext: PlainText {
            data_reference_index: 1,
        },
        config: VttC {
            config: "WEBVTT\nSome dummy header information\n".into(),
        },
        label: Some(Vlab {
            source_label: "uri://dummy/label".into(),
        }),
        btrt: Some(Btrt {
            buffer_size_db: 1,
            max_bitrate: 2000,
            avg_bitrate: 400,
        }),
    };

    let mut buf = Vec::new();
    wvtt.encode(&mut buf).unwrap();
    let decoded = Wvtt::decode(&mut buf.as_slice()).expect("failed to decode wvtt");

    assert_eq!(decoded, wvtt,);
}
