use mp4_atom::{
    Audio, Btrt, ClockType, Decode, DecoderConfig, DecoderSpecific, Descriptor, Encode,
    EsDescriptor, Error, Esds, Mp4a, SLConfig, Taic,
};

#[test]
fn descriptor_size_uses_most_significant_group_first() {
    let descriptor = Descriptor::Unknown(0x7F, vec![0xAA; 200]);
    let mut encoded = Vec::new();
    descriptor.encode(&mut encoded).unwrap();

    assert_eq!(&encoded[..3], &[0x7F, 0x81, 0x48]);
    let mut encoded = encoded.as_slice();
    assert_eq!(Descriptor::decode(&mut encoded).unwrap(), descriptor);
    assert!(encoded.is_empty());
}

#[test]
fn empty_descriptor_has_a_size_byte() {
    let descriptor = Descriptor::Unknown(0x7F, Vec::new());
    let mut encoded = Vec::new();
    descriptor.encode(&mut encoded).unwrap();

    assert_eq!(encoded, [0x7F, 0x00]);
    assert_eq!(
        Descriptor::decode(&mut encoded.as_slice()).unwrap(),
        descriptor
    );
}

#[test]
fn descriptor_size_rejects_more_than_four_bytes() {
    let mut encoded = &[0x7F, 0x80, 0x80, 0x80, 0x80][..];
    assert!(matches!(
        Descriptor::decode(&mut encoded),
        Err(Error::InvalidSize)
    ));
}

#[test]
fn es_descriptor_flags_round_trip() {
    let descriptor = Descriptor::from(EsDescriptor {
        es_id: 0x1234,
        depends_on_es_id: Some(0x5678),
        url: Some(b"https://example.com/audio".to_vec()),
        ocr_es_id: Some(0x9ABC),
        stream_priority: 17,
        dec_config: DecoderConfig::default(),
        sl_config: SLConfig::default(),
    });

    let mut encoded = Vec::new();
    descriptor.encode(&mut encoded).unwrap();
    let mut input = encoded.as_slice();
    let decoded = Descriptor::decode(&mut input).unwrap();
    assert_eq!(decoded, descriptor);
    assert!(input.is_empty());
}

#[test]
fn extended_audio_object_type_and_channel_config_round_trip() {
    let config = DecoderSpecific {
        profile: 42,
        freq_index: 4,
        sample_rate: None,
        chan_conf: 9,
    };
    let mut encoded = Vec::new();
    config.encode(&mut encoded).unwrap();

    assert_eq!(encoded, [0xF9, 0x49, 0x20]);
    assert_eq!(
        DecoderSpecific::decode(&mut encoded.as_slice()).unwrap(),
        config
    );
}

#[test]
fn explicit_sample_rate_round_trip() {
    let config = DecoderSpecific {
        profile: 2,
        freq_index: 15,
        sample_rate: Some(48_000),
        chan_conf: 2,
    };
    let mut encoded = Vec::new();
    config.encode(&mut encoded).unwrap();

    assert_eq!(encoded, [0x17, 0x80, 0x5D, 0xC0, 0x10]);
    assert_eq!(
        DecoderSpecific::decode(&mut encoded.as_slice()).unwrap(),
        config
    );
}

fn aac_esds() -> Esds {
    Esds {
        es_desc: EsDescriptor {
            es_id: 2,
            depends_on_es_id: None,
            url: None,
            ocr_es_id: None,
            stream_priority: 0,
            dec_config: DecoderConfig {
                object_type_indication: 0x40,
                stream_type: 0x05,
                up_stream: 0,
                buffer_size_db: Default::default(),
                max_bitrate: 67695,
                avg_bitrate: 67695,
                dec_specific: DecoderSpecific {
                    profile: 2,
                    freq_index: 4,
                    sample_rate: None,
                    chan_conf: 2,
                },
            },
            sl_config: SLConfig::default(),
        },
    }
}

#[test]
fn test_mp4a() {
    let expected = Mp4a {
        audio: Audio {
            data_reference_index: 1,
            channel_count: 2,
            sample_size: 16,
            sample_rate: 48000.into(),
        },
        esds: aac_esds(),
        btrt: Some(Btrt {
            buffer_size_db: 1,
            max_bitrate: 2,
            avg_bitrate: 3,
        }),
        taic: None,
    };
    let mut buf = Vec::new();
    expected.encode(&mut buf).unwrap();

    let mut buf = buf.as_slice();
    let decoded = Mp4a::decode(&mut buf).unwrap();
    assert_eq!(decoded, expected);
}

// Build `[size:u32][fourcc][body]`.
fn atom_box(fourcc: &[u8; 4], body: &[u8]) -> Vec<u8> {
    let mut v = Vec::with_capacity(8 + body.len());
    v.extend_from_slice(&((8 + body.len()) as u32).to_be_bytes());
    v.extend_from_slice(fourcc);
    v.extend_from_slice(body);
    v
}

// QuickTime `mp4a` sample entry: the AAC `esds` is nested inside a `wave` box rather than a
// direct child of `mp4a`.
#[test]
fn test_mp4a_quicktime_wave() {
    let audio = Audio {
        data_reference_index: 1,
        channel_count: 2,
        sample_size: 16,
        sample_rate: 48000.into(),
    };
    let esds = aac_esds();

    let btrt = Btrt {
        buffer_size_db: 1,
        max_bitrate: 2,
        avg_bitrate: 3,
    };

    // Encode the pieces the QuickTime layout wraps.
    let mut audio_bytes = Vec::new();
    audio.encode(&mut audio_bytes).unwrap();
    let mut esds_box = Vec::new();
    esds.encode(&mut esds_box).unwrap();
    let mut btrt_box = Vec::new();
    btrt.encode(&mut btrt_box).unwrap();

    // wave { frma('mp4a'), mp4a stub (4 zero bytes, not a sample entry),
    //        esds, btrt, all-zero terminator }
    let mut wave_body = Vec::new();
    wave_body.extend_from_slice(&atom_box(b"frma", b"mp4a"));
    wave_body.extend_from_slice(&atom_box(b"mp4a", &[0, 0, 0, 0]));
    wave_body.extend_from_slice(&esds_box);
    wave_body.extend_from_slice(&btrt_box);
    wave_body.extend_from_slice(&[0, 0, 0, 8, 0, 0, 0, 0]);

    // mp4a { audio-header, wave }
    let mut mp4a_body = audio_bytes;
    mp4a_body.extend_from_slice(&atom_box(b"wave", &wave_body));
    let mp4a = atom_box(b"mp4a", &mp4a_body);

    let mut buf = mp4a.as_slice();
    let decoded = Mp4a::decode(&mut buf).unwrap();
    assert_eq!(decoded.audio, audio);
    assert_eq!(decoded.esds, esds);
    // A `btrt` nested alongside the esds inside `wave` is hoisted too.
    assert_eq!(decoded.btrt, Some(btrt));
}

#[test]
fn test_mp4a_with_taic() {
    let expected = Mp4a {
        audio: Audio {
            data_reference_index: 1,
            channel_count: 2,
            sample_size: 16,
            sample_rate: 48000.into(),
        },
        esds: aac_esds(),
        btrt: None,
        taic: Some(Taic {
            time_uncertainty: 1,
            clock_resolution: 2,
            clock_drift_rate: 4,
            clock_type: ClockType::CanSync,
        }),
    };
    let mut buf = Vec::new();
    expected.encode(&mut buf).unwrap();

    let mut buf = buf.as_slice();
    let decoded = Mp4a::decode(&mut buf).unwrap();
    assert_eq!(decoded, expected);
}

const ENCODED_TAIC: &[u8] = &[
    0x00, 0x00, 0x00, 0x1d, b't', b'a', b'i', b'c', 0x00, 0x00, 0x00, 0x00, 0xff, 0xff, 0xff,
    0xff, 0xff, 0xff, 0xff, 0xff, 0x00, 0x00, 0x27, 0x10, 0x7f, 0xff, 0xff, 0xff, 0x80,
];

#[test]
fn test_taic_decode() {
    let mut input: &[u8] = ENCODED_TAIC;

    let taic = Taic::decode(&mut input).expect("failed to decode taic");

    assert_eq!(
        taic,
        Taic {
            time_uncertainty: u64::MAX,
            clock_resolution: 10000,
            clock_drift_rate: i32::MAX,
            clock_type: ClockType::CanSync,
        }
    );
}

#[test]
fn test_taic_encode() {
    let taic = Taic {
        time_uncertainty: u64::MAX,
        clock_resolution: 10000,
        clock_drift_rate: i32::MAX,
        clock_type: ClockType::CanSync,
    };

    let mut buf = Vec::new();
    taic.encode(&mut buf).unwrap();

    assert_eq!(buf.as_slice(), ENCODED_TAIC);
}
