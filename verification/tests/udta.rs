use mp4_atom::{
    Atom, Chpl, ChplEntry, Cprt, Data, DataType, Decode, Encode, Error, FourCC, Hdlr, Kind, Meta,
    Rtng, Udta, Unknown,
};

#[test]
fn test_chpl_roundtrip() {
    let expected = Chpl {
        entries: vec![
            ChplEntry {
                start: 0,
                title: "Intro".into(),
            },
            ChplEntry {
                start: 30_000_000,
                title: "Chapter 2".into(),
            },
        ],
    };

    let mut buf = Vec::new();
    expected.encode(&mut buf).unwrap();

    let decoded = Chpl::decode(&mut buf.as_slice()).expect("failed to decode chpl");
    assert_eq!(decoded, expected);
}

#[test]
fn test_chpl_empty() {
    let expected = Chpl { entries: vec![] };

    let mut buf = Vec::new();
    expected.encode(&mut buf).unwrap();

    let decoded = Chpl::decode(&mut buf.as_slice()).expect("failed to decode chpl");
    assert_eq!(decoded, expected);
}

#[test]
fn test_chpl_version0_no_reserved_field() {
    // Version 0 omits the 4-byte reserved field that version 1 has after the FullBox header.
    let expected = Chpl {
        entries: vec![
            ChplEntry {
                start: 0,
                title: "Intro".into(),
            },
            ChplEntry {
                start: 30_000_000,
                title: "Chapter 2".into(),
            },
        ],
    };

    let mut buf: Vec<u8> = Vec::new();
    buf.push(0u8); // version 0
    buf.extend_from_slice(&[0u8; 3]); // flags
    let count: u8 = expected.entries.len().try_into().unwrap();
    buf.push(count);
    for entry in &expected.entries {
        buf.extend_from_slice(&entry.start.to_be_bytes());
        let title_bytes = entry.title.as_bytes();
        let title_len: u8 = title_bytes.len().try_into().unwrap();
        buf.push(title_len);
        buf.extend_from_slice(title_bytes);
    }

    let (decoded, _) = Chpl::decode_body(buf.as_slice()).expect("failed to decode chpl");
    assert_eq!(decoded, expected);
}

const ENCODED_RTNG: &[u8] = &[
    0x00, 0x00, 0x00, 0x1d, 0x72, 0x74, 0x6e, 0x67, 0x00, 0x00, 0x00, 0x00, 0x4d, 0x50, 0x41,
    0x41, 0x00, 0x00, 0x00, 0x00, 0x15, 0xc7, 0x47, 0x00, 0x00, 0x00, 0x00, 0x00, 0x00,
];

#[test]
fn test_rtng_decode() {
    let mut input: &[u8] = ENCODED_RTNG;
    let rtng = Rtng::decode(&mut input).expect("failed to decode rtng");
    assert_eq!(
        rtng,
        Rtng {
            entity: b"MPAA".into(),
            criteria: b"\0\0\0\0".into(),
            language: "eng".into(),
            rating_info: "G\0\0\0\0\0".into(),
        }
    );
}

#[test]
fn test_rtng_encode() {
    let rtng = Rtng {
        entity: b"MPAA".into(),
        criteria: b"\0\0\0\0".into(),
        language: "eng".into(),
        rating_info: "G\0\0\0\0\0".into(),
    };

    let mut buf = Vec::new();
    rtng.encode(&mut buf).unwrap();
    assert_eq!(buf, ENCODED_RTNG);
}

#[test]
fn test_udta_empty() {
    let expected = Udta {
        cprt: None,
        meta: None,
        kind: None,
        rtng: None,
    };

    let mut buf = Vec::new();
    expected.encode(&mut buf).unwrap();

    let mut buf = buf.as_slice();
    let output = Udta::decode(&mut buf).unwrap();
    assert_eq!(output, expected);
}

// From MPEG File Format Conformance, isobmff/02_dref_edts_img.mp4
const ENCODED_UDTA_WITH_CPRT: &[u8] = &[
    0x00, 0x00, 0x00, 0x70, 0x75, 0x64, 0x74, 0x61, 0x00, 0x00, 0x00, 0x68, 0x63, 0x70, 0x72,
    0x74, 0x00, 0x00, 0x00, 0x00, 0x55, 0xc4, 0x45, 0x4e, 0x53, 0x54, 0x20, 0x49, 0x73, 0x6f,
    0x4d, 0x65, 0x64, 0x69, 0x61, 0x20, 0x43, 0x6f, 0x6e, 0x66, 0x6f, 0x72, 0x6d, 0x61, 0x6e,
    0x63, 0x65, 0x20, 0x46, 0x69, 0x6c, 0x65, 0x73, 0x20, 0x2d, 0x20, 0x45, 0x4e, 0x53, 0x54,
    0x20, 0x28, 0x63, 0x29, 0x20, 0x32, 0x30, 0x30, 0x36, 0x20, 0x2d, 0x20, 0x52, 0x69, 0x67,
    0x68, 0x74, 0x73, 0x20, 0x72, 0x65, 0x6c, 0x65, 0x61, 0x73, 0x65, 0x64, 0x20, 0x66, 0x6f,
    0x72, 0x20, 0x49, 0x53, 0x4f, 0x20, 0x43, 0x6f, 0x6e, 0x66, 0x6f, 0x72, 0x6d, 0x61, 0x6e,
    0x63, 0x65, 0x20, 0x75, 0x73, 0x65, 0x00,
];

#[test]
fn test_udta_cprt() {
    let mut buf: &[u8] = ENCODED_UDTA_WITH_CPRT;

    let udta = Udta::decode(&mut buf).expect("failed to decode udta");

    assert_eq!(
        udta,
        Udta {
            cprt: Some(Cprt { language: "und".into(), notice: "ENST IsoMedia Conformance Files - ENST (c) 2006 - Rights released for ISO Conformance use".into() }),
            ..Default::default()
        }
    );

    let mut buf = Vec::new();
    udta.encode(&mut buf).unwrap();

    assert_eq!(buf, ENCODED_UDTA_WITH_CPRT);
}

// From MPEG File Format Conformance, nalu/hevc/hev1_clg1_header.mp4
const ENCODED_UDTA_WITH_KIND: &[u8] = &[
    0x00, 0x00, 0x00, 0x31, 0x75, 0x64, 0x74, 0x61, 0x00, 0x00, 0x00, 0x29, 0x6b, 0x69, 0x6e,
    0x64, 0x00, 0x00, 0x00, 0x00, 0x75, 0x72, 0x6e, 0x3a, 0x6d, 0x70, 0x65, 0x67, 0x3a, 0x64,
    0x61, 0x73, 0x68, 0x3a, 0x72, 0x6f, 0x6c, 0x65, 0x3a, 0x32, 0x30, 0x31, 0x31, 0x00, 0x6d,
    0x61, 0x69, 0x6e, 0x00,
];

#[test]
fn test_udta_kind() {
    let mut buf: &[u8] = ENCODED_UDTA_WITH_KIND;

    let udta = Udta::decode(&mut buf).expect("failed to decode udta");

    assert_eq!(
        udta,
        Udta {
            kind: Some(Kind {
                scheme_uri: "urn:mpeg:dash:role:2011".into(),
                value: "main".into()
            }),
            ..Default::default()
        }
    );

    let mut buf = Vec::new();
    udta.encode(&mut buf).unwrap();

    assert_eq!(buf, ENCODED_UDTA_WITH_KIND);
}

#[test]
fn test_data() {
    let expected = Data {
        data_type: DataType::Text,
        data: b"test_data".to_vec(),
    };
    let mut buf = Vec::new();
    expected.encode(&mut buf).unwrap();

    let mut buf = buf.as_slice();
    let decoded = Data::decode(&mut buf).unwrap();
    assert_eq!(decoded, expected);
}

#[test]
fn test_data_empty() {
    let expected = Data::default();
    let mut buf = Vec::new();
    expected.encode(&mut buf).unwrap();

    let mut buf = buf.as_slice();
    let decoded = Data::decode(&mut buf).unwrap();
    assert_eq!(decoded, expected);
}

#[test]
fn test_udta() {
    let expected = Udta {
        cprt: Some(Cprt {
            language: "und".into(),
            notice: "MIT or Apache".into(),
        }),
        meta: Some(Meta {
            hdlr: Hdlr {
                handler: FourCC::new(b"fake"),
                name: "".into(),
            },
            items: vec![],
        }),
        kind: Some(Kind {
            scheme_uri: "http://www.w3.org/TR/html5/".into(),
            value: "".into(),
        }),
        rtng: Some(Rtng {
            entity: b"BBFC".into(),
            criteria: b"PG13".into(),
            language: "eng".into(),
            rating_info: "test info".into(),
        }),
    };

    let mut buf = Vec::new();
    expected.encode(&mut buf).unwrap();

    let mut buf = buf.as_slice();
    let output = Udta::decode(&mut buf).unwrap();
    assert_eq!(output, expected);
}

// A meta box whose handler comes after an ilst box, and whose handler name has a second
// zero byte after its terminator.
const ENCODED_META_HDLR_LAST: &[u8] = b"\x00\x00\x00\x7fmeta\x00\x00\x00\x00\x00\x00\x00Qilst\x00\x00\x00I\xa9too\x00\x00\x00Adata\x00\x00\x00\x01\x00\x00\x00\x00TMPGEnc Video Mastering Works 7 Version 7.0.15.17\x00\x00\x00\"hdlr\x00\x00\x00\x00\x00\x00\x00\x00mdirappl\x00\x00\x00\x00\x00\x00\x00\x00\x00\x00";

#[test]
fn meta_with_the_handler_last_keeps_the_other_boxes() {
    let mut buf = ENCODED_META_HDLR_LAST;
    let meta = Meta::decode(&mut buf).unwrap();
    assert!(buf.is_empty());
    assert_eq!(
        meta,
        Meta {
            hdlr: Hdlr {
                handler: FourCC::new(b"mdir"),
                name: "".into(),
            },
            items: vec![Unknown {
                kind: FourCC::new(b"ilst"),
                data: ENCODED_META_HDLR_LAST[20..93].to_vec(),
            }],
        }
    );
}

#[test]
fn meta_round_trips_with_other_boxes() {
    let meta = Meta {
        hdlr: Hdlr {
            handler: FourCC::new(b"mdir"),
            name: "handler".into(),
        },
        items: vec![
            Unknown {
                kind: FourCC::new(b"ilst"),
                data: vec![1, 2, 3],
            },
            Unknown {
                kind: FourCC::new(b"free"),
                data: vec![],
            },
        ],
    };
    let mut buf = Vec::new();
    meta.encode(&mut buf).unwrap();
    assert_eq!(buf.len(), 8 + 4 + (8 + 24 + 8) + 11 + 8);
    assert_eq!(Meta::decode(&mut buf.as_slice()), Ok(meta));
}

#[test]
fn meta_without_a_handler_is_missing_it() {
    let bytes = [0, 0, 0, 12, b'm', b'e', b't', b'a', 0, 0, 0, 0];
    assert_eq!(
        Meta::decode(&mut &bytes[..]),
        Err(Error::MissingBox(FourCC::new(b"hdlr")))
    );
}
