use mp4_atom::{Decode, Encode, Prft, ReferenceTime, SegmentReference, Sidx};

// From MPEG File Format Conformance suite: 21_segment.mp4
const ENCODED_PRFT: &[u8] = &[
    0x00, 0x00, 0x00, 0x20, 0x70, 0x72, 0x66, 0x74, 0x01, 0x00, 0x00, 0x00, 0x00, 0x00, 0x00,
    0x01, 0xda, 0x74, 0xca, 0x46, 0x6b, 0xc6, 0xa7, 0xef, 0xff, 0xff, 0xff, 0xff, 0xff, 0xff,
    0xff, 0xf8,
];

// Decoded values per 21_segment_gpac.json
const DECODED_PRFT: Prft = Prft {
    reference_track_id: 1,
    ntp_timestamp: 15741429001371428847,
    media_time: 18446744073709551608,
    utc_time_semantics: ReferenceTime::Input,
};

#[test]
fn test_prft_v1_decode() {
    let mut input: &[u8] = ENCODED_PRFT;
    let prft = Prft::decode(&mut input).expect("failed to decode prft");
    assert_eq!(prft, DECODED_PRFT);
}

#[test]
fn test_prft_v1_encode() {
    let mut buf = Vec::new();
    DECODED_PRFT.encode(&mut buf).unwrap();

    assert_eq!(buf.as_slice(), ENCODED_PRFT);
}

#[test]
fn test_prft_v0_round_trip() {
    let mut buf = Vec::new();
    let prft = Prft {
        reference_track_id: 7,
        ntp_timestamp: 15741429001371428847,
        media_time: u32::MAX.into(),
        utc_time_semantics: ReferenceTime::Written,
    };
    prft.encode(&mut buf).unwrap();
    assert_eq!(
        buf.as_slice(),
        &[
            0x00, 0x00, 0x00, 0x1C, 0x70, 0x72, 0x66, 0x74, 0x00, 0x00, 0x00, 0x04, 0x00, 0x00,
            0x00, 0x07, 0xda, 0x74, 0xca, 0x46, 0x6b, 0xc6, 0xa7, 0xef, 0xff, 0xff, 0xff, 0xff
        ]
    );

    let decoded = Prft::decode(&mut buf.as_slice()).unwrap();
    assert_eq!(decoded, prft);
}

#[test]
fn test_prft_realtime_roundtrip() {
    let mut buf = Vec::new();
    let prft = Prft {
        reference_track_id: 1,
        ntp_timestamp: 16571585696146385000,
        media_time: 41234604048,
        utc_time_semantics: ReferenceTime::RealTime,
    };
    prft.encode(&mut buf).unwrap();
    assert_eq!(
        buf.as_slice(),
        &[
            0x00, 0x00, 0x00, 0x20, 0x70, 0x72, 0x66, 0x74, 0x01, 0x00, 0x00, 0x18, 0x00, 0x00,
            0x00, 0x01, 0xe5, 0xfa, 0x19, 0x63, 0xff, 0xbf, 0xe8, 0x68, 0x00, 0x00, 0x00, 0x09,
            0x99, 0xc6, 0x20, 0x10
        ]
    );

    let decoded = Prft::decode(&mut buf.as_slice()).unwrap();
    assert_eq!(decoded, prft);
}

// From MPEG File Format Conformance suite: 21_segment.mp4
const ENCODED_SIDX: &[u8] = &[
    0x00, 0x00, 0x00, 0x2c, 0x73, 0x69, 0x64, 0x78, 0x00, 0x00, 0x00, 0x00, 0x00, 0x00, 0x00,
    0x01, 0x00, 0x00, 0x00, 0x64, 0x00, 0x00, 0x00, 0x00, 0x00, 0x00, 0x00, 0x00, 0x00, 0x00,
    0x00, 0x01, 0x00, 0x04, 0xfc, 0x80, 0x00, 0x00, 0x13, 0x80, 0x90, 0x00, 0x00, 0x00,
];

#[test]
fn test_sidx_v0_decode() {
    let mut input: &[u8] = ENCODED_SIDX;
    let sidx = Sidx::decode(&mut input).expect("failed to decode sidx");
    assert_eq!(
        sidx,
        Sidx {
            reference_id: 1,
            timescale: 100,
            earliest_presentation_time: 0,
            first_offset: 0,
            references: vec![SegmentReference {
                reference_type: false,
                reference_size: 326784,
                subsegment_duration: 4992,
                starts_with_sap: true,
                sap_type: 1,
                sap_delta_time: 0,
            }],
        }
    );
}

#[test]
fn test_sidx_v0_encode() {
    let mut buf = Vec::new();
    let sidx = Sidx {
        reference_id: 1,
        timescale: 100,
        earliest_presentation_time: 0,
        first_offset: 0,
        references: vec![SegmentReference {
            reference_type: false,
            reference_size: 326784,
            subsegment_duration: 4992,
            starts_with_sap: true,
            sap_type: 1,
            sap_delta_time: 0,
        }],
    };
    sidx.encode(&mut buf).unwrap();

    assert_eq!(buf.as_slice(), ENCODED_SIDX);
}
