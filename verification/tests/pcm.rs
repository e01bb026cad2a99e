use mp4_atom::{
    Atom, Audio, AudioChannelPosition, Btrt, ChannelStructure, Chnl, Decode, Encode, Error,
    ExplicitSpeakerPosition, FixedPoint, FourCC, Ipcm, Lpcm, Pcm, PcmC, PcmFormat,
    SpeakerPosition, Twos,
};


#[test]
fn test_pcmc_encode_decode() {
    let pcmc = PcmC {
        big_endian: true,
        sample_size: 16,
    };

    let mut buf = Vec::new();
    pcmc.encode(&mut buf).unwrap();

    let decoded = PcmC::decode(&mut &buf[..]).unwrap();
    assert_eq!(pcmc, decoded);
}

#[test]
fn test_pcm_encode_decode() {
    let pcmc = PcmC {
        big_endian: false,
        sample_size: 16,
    };
    let chnl = Chnl {
        channel_structure: Some(ChannelStructure::DefinedLayout {
            layout: 2, // Stereo
            omitted_channels_map: Some(0),
            channel_order_definition: None,
        }),
        object_count: None,
        format_ordering: None,
        base_channel_count: None,
    };
    let pcm = Pcm {
        fourcc: FourCC::new(b"fpcm"),
        audio: Audio {
            data_reference_index: 1,
            channel_count: 2,
            sample_size: 16,
            sample_rate: 48000.into(),
        },
        pcmc: Some(pcmc),
        chnl: Some(chnl),
        btrt: None,
    };

    let mut buf = Vec::new();
    pcm.encode_with_fourcc(&mut buf).unwrap();

    let decoded = Pcm::decode_with_fourcc(FourCC::new(b"fpcm"), &mut &buf[..]).unwrap();
    assert_eq!(pcm, decoded);
}

#[test]
fn test_pcm_encode_decode_with_both_channel_and_object() {
    let pcmc = PcmC {
        big_endian: true,
        sample_size: 16,
    };
    let chnl = Chnl {
        channel_structure: Some(ChannelStructure::DefinedLayout {
            layout: 2, // Stereo
            omitted_channels_map: Some(0),
            channel_order_definition: None,
        }),
        object_count: Some(2),
        format_ordering: None,
        base_channel_count: None,
    };
    let pcm = Pcm {
        fourcc: FourCC::new(b"ipcm"),
        audio: Audio {
            data_reference_index: 1,
            channel_count: 2,
            sample_size: 16,
            sample_rate: 48000.into(),
        },
        pcmc: Some(pcmc),
        chnl: Some(chnl),
        btrt: None,
    };

    let mut buf = Vec::new();
    pcm.encode_with_fourcc(&mut buf).unwrap();

    let decoded = Pcm::decode_with_fourcc(FourCC::new(b"ipcm"), &mut &buf[..]).unwrap();
    assert_eq!(pcm, decoded);
}

#[test]
fn test_pcm_encode_decode_with_both_channel_and_object_explicit_position() {
    let pcmc = PcmC {
        big_endian: true,
        sample_size: 16,
    };
    let chnl = Chnl {
        channel_structure: Some(ChannelStructure::ExplicitPositions {
            positions: vec![
                SpeakerPosition::Standard(AudioChannelPosition::FrontLeft),
                SpeakerPosition::Standard(AudioChannelPosition::FrontRight),
            ],
        }),
        object_count: Some(2),
        format_ordering: None,
        base_channel_count: None,
    };
    let pcm = Pcm {
        fourcc: FourCC::new(b"fpcm"),
        audio: Audio {
            data_reference_index: 1,
            channel_count: 2,
            sample_size: 16,
            sample_rate: 48000.into(),
        },
        pcmc: Some(pcmc),
        chnl: Some(chnl),
        btrt: Some(Btrt {
            buffer_size_db: 6,
            max_bitrate: 2_304_096,
            avg_bitrate: 2_304_000,
        }),
    };

    let mut buf = Vec::new();
    pcm.encode_with_fourcc(&mut buf).unwrap();

    let decoded = Pcm::decode_with_fourcc(FourCC::new(b"fpcm"), &mut &buf[..]).unwrap();
    assert_eq!(pcm, decoded);
}

#[test]
fn test_pcm_encode_decode_with_chnl_explicit_positions() {
    let pcmc = PcmC {
        big_endian: true,
        sample_size: 16,
    };
    let chnl = Chnl {
        channel_structure: Some(ChannelStructure::ExplicitPositions {
            positions: vec![
                SpeakerPosition::Standard(AudioChannelPosition::FrontLeft),
                SpeakerPosition::Standard(AudioChannelPosition::FrontRight),
            ],
        }),
        object_count: None,
        format_ordering: None,
        base_channel_count: None,
    };
    let pcm = Pcm {
        fourcc: FourCC::new(b"fpcm"),
        audio: Audio {
            data_reference_index: 1,
            channel_count: 2,
            sample_size: 16,
            sample_rate: 48000.into(),
        },
        pcmc: Some(pcmc),
        chnl: Some(chnl),
        btrt: None,
    };

    let mut buf = Vec::new();
    pcm.encode_with_fourcc(&mut buf).unwrap();

    let decoded = Pcm::decode_with_fourcc(FourCC::new(b"fpcm"), &mut &buf[..]).unwrap();
    assert_eq!(pcm, decoded);
}

#[test]
fn test_pcm_encode_decode_with_chnl_explicit_speaker_position() {
    let pcmc = PcmC {
        big_endian: true,
        sample_size: 16,
    };
    let chnl = Chnl {
        channel_structure: Some(ChannelStructure::ExplicitPositions {
            positions: vec![
                SpeakerPosition::Standard(AudioChannelPosition::FrontLeft),
                SpeakerPosition::Explicit(ExplicitSpeakerPosition {
                    azimuth: 45,
                    elevation: 10,
                }),
            ],
        }),
        object_count: None,
        format_ordering: None,
        base_channel_count: None,
    };
    let pcm = Pcm {
        fourcc: FourCC::new(b"fpcm"),
        audio: Audio {
            data_reference_index: 1,
            channel_count: 2,
            sample_size: 16,
            sample_rate: 48000.into(),
        },
        pcmc: Some(pcmc),
        chnl: Some(chnl),
        btrt: None,
    };

    let mut buf = Vec::new();
    pcm.encode_with_fourcc(&mut buf).unwrap();

    let decoded = Pcm::decode_with_fourcc(FourCC::new(b"fpcm"), &mut &buf[..]).unwrap();
    assert_eq!(pcm, decoded);
}

#[test]
fn test_pcm_v1_chnl() {
    let pcmc = PcmC {
        big_endian: false,
        sample_size: 24,
    };
    let chnl = Chnl {
        channel_structure: Some(ChannelStructure::ExplicitPositions {
            positions: vec![
                SpeakerPosition::Standard(AudioChannelPosition::FrontLeft),
                SpeakerPosition::Standard(AudioChannelPosition::FrontRight),
            ],
        }),
        object_count: Some(1),
        format_ordering: Some(1),
        base_channel_count: Some(3),
    };
    let pcm = Lpcm {
        audio: Audio {
            data_reference_index: 1,
            channel_count: 2,
            sample_size: 24,
            sample_rate: 48000.into(),
        },
        pcmc: Some(pcmc),
        chnl: Some(chnl),
        btrt: None,
    };

    let mut buf = Vec::new();
    pcm.encode(&mut buf).unwrap();

    let decoded = Lpcm::decode(&mut &buf[..]).unwrap();
    assert_eq!(pcm, decoded);
}

const ENCODED_IPCM: &[u8] = &[
    0x00, 0x00, 0x00, 0x5c, 0x69, 0x70, 0x63, 0x6d, 0x00, 0x00, 0x00, 0x00, 0x00, 0x00, 0x00,
    0x01, 0x00, 0x00, 0x00, 0x00, 0x00, 0x00, 0x00, 0x00, 0x00, 0x02, 0x00, 0x18, 0x00, 0x00,
    0x00, 0x00, 0xbb, 0x80, 0x00, 0x00, 0x00, 0x00, 0x00, 0x0e, 0x70, 0x63, 0x6d, 0x43, 0x00,
    0x00, 0x00, 0x00, 0x00, 0x18, 0x00, 0x00, 0x00, 0x16, 0x63, 0x68, 0x6e, 0x6c, 0x00, 0x00,
    0x00, 0x00, 0x01, 0x02, 0x00, 0x00, 0x00, 0x00, 0x00, 0x00, 0x00, 0x00, 0x00, 0x00, 0x00,
    0x14, 0x62, 0x74, 0x72, 0x74, 0x00, 0x00, 0x00, 0x06, 0x00, 0x23, 0x28, 0x60, 0x00, 0x23,
    0x28, 0x00,
];

fn decoded_ipcm() -> Ipcm {
    Ipcm {
        audio: Audio {
            data_reference_index: 1,
            channel_count: 2,
            sample_size: 24,
            sample_rate: FixedPoint::new(48000, 0),
        },
        pcmc: Some(PcmC {
            big_endian: true,
            sample_size: 24,
        }),
        chnl: Some(Chnl {
            channel_structure: Some(ChannelStructure::DefinedLayout {
                layout: 2,
                omitted_channels_map: Some(0),
                channel_order_definition: None,
            }),
            object_count: None,
            format_ordering: None,
            base_channel_count: None,
        }),
        btrt: Some(Btrt {
            buffer_size_db: 6,
            max_bitrate: 2_304_096,
            avg_bitrate: 2_304_000,
        }),
    }
}

#[test]
fn test_ipcm_decode() {
    let buf: &mut &[u8] = &mut &ENCODED_IPCM[..];
    let ipcm = Ipcm::decode(buf).expect("failed to decode ipcm");
    assert_eq!(ipcm, decoded_ipcm());
}

#[test]
fn test_ipcm_encode() {
    let ipcm = decoded_ipcm();
    let mut buf = Vec::new();
    ipcm.encode(&mut buf).unwrap();
    assert_eq!(buf.as_slice(), ENCODED_IPCM);
}

// A bare QuickTime sample entry without any child boxes, as written by
// e.g. Sony XAVC cameras; the format is implied by the fourcc.
const ENCODED_BARE_TWOS: &[u8] = &[
    0x00, 0x00, 0x00, 0x24, // size = 36
    0x74, 0x77, 0x6f, 0x73, // "twos"
    0x00, 0x00, 0x00, 0x00, 0x00, 0x00, // reserved
    0x00, 0x01, // data_reference_index = 1
    0x00, 0x00, // version = 0
    0x00, 0x00, // revision = 0
    0x00, 0x00, 0x00, 0x00, // vendor = 0
    0x00, 0x02, // channelcount = 2
    0x00, 0x10, // samplesize = 16
    0x00, 0x00, // compression_id = 0
    0x00, 0x00, // packet_size = 0
    0xbb, 0x80, 0x00, 0x00, // samplerate = 48000 << 16
];

#[test]
fn test_bare_twos_decode() {
    let buf: &mut &[u8] = &mut &ENCODED_BARE_TWOS[..];
    let twos = Twos::decode(buf).expect("failed to decode twos");
    assert_eq!(
        twos,
        Twos {
            audio: Audio {
                data_reference_index: 1,
                channel_count: 2,
                sample_size: 16,
                sample_rate: FixedPoint::new(48000, 0),
            },
            pcmc: None,
            chnl: None,
            btrt: None,
        }
    );
    assert_eq!(
        twos.format(),
        Some(PcmFormat {
            big_endian: true,
            sample_size: 16,
            float: false,
        })
    );
}

#[test]
fn test_bare_twos_roundtrip() {
    let buf: &mut &[u8] = &mut &ENCODED_BARE_TWOS[..];
    let twos = Twos::decode(buf).expect("failed to decode twos");

    let mut encoded = Vec::new();
    twos.encode(&mut encoded).unwrap();
    assert_eq!(encoded.as_slice(), ENCODED_BARE_TWOS);
}

#[test]
fn test_ipcm_missing_pcmc_decode() {
    // The same bare entry, but ipcm requires a pcmC box (ISO/IEC 23003-5).
    let mut encoded = ENCODED_BARE_TWOS.to_vec();
    encoded[4..8].copy_from_slice(b"ipcm");

    let buf: &mut &[u8] = &mut encoded.as_slice();
    assert!(matches!(
        Ipcm::decode(buf),
        Err(Error::MissingBox(k)) if k == PcmC::kind()
    ));
}

#[test]
fn test_ipcm_missing_pcmc_encode() {
    let ipcm = Ipcm {
        audio: Audio {
            data_reference_index: 1,
            channel_count: 2,
            sample_size: 16,
            sample_rate: 48000.into(),
        },
        pcmc: None,
        chnl: None,
        btrt: None,
    };

    let mut buf = Vec::new();
    assert!(matches!(
        ipcm.encode(&mut buf),
        Err(Error::MissingBox(k)) if k == PcmC::kind()
    ));
}

