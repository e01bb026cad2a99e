use mp4_atom::atom::decode_atom_body;
use mp4_atom::reader::{
    check_discarded, check_filled, decode_read_atom, discard_split, header_len, raw_read_len,
    raw_remain_after, read_limit,
};
use mp4_atom::{
    item_to_bytes, item_to_str, item_to_u32, Atom, Audio, AudioChannelPosition,
    ChannelStructure, Chnl, Colr, Cprt, Data, DataType, Decode, DecoderConfig, DecoderSpecific,
    Descriptor, Encode, Error, EsDescriptor, Esds, ExplicitSpeakerPosition, ExtendedType, FixedPoint, Fl32,
    Fiel, FourCC, Header, IlstItem, Mp4v, Pasp, Pcm, PcmC, PcmFormat, ReaderHeader, RgbaColor,
    S16l, SLConfig, Sowt, SpeakerPosition, Sthd, Stss, Tx3g, Unknown, Uuid, Visual,
};

fn fourcc(b: &[u8; 4]) -> FourCC {
    FourCC::new(b)
}

#[test]
fn fourcc_is_the_big_endian_value_of_its_bytes() {
    assert_eq!(fourcc(b"ftyp").code, 0x66747970);
    let from: FourCC = b"moov".into();
    assert_eq!(from.code, 0x6d6f6f76);
}

#[test]
fn header_with_a_64_bit_size_round_trips() {
    let header = Header {
        kind: fourcc(b"mdat"),
        size: Some(1usize << 32),
    };
    let mut buf = Vec::new();
    header.encode(&mut buf).unwrap();
    assert_eq!(
        buf,
        vec![0, 0, 0, 1, b'm', b'd', b'a', b't', 0, 0, 0, 1, 0, 0, 0, 16]
    );
    assert_eq!(header.encode_size(), 16);
    assert_eq!(Header::decode_prefix(&buf).unwrap(), (header, 16));
}

#[test]
fn header_to_the_end_round_trips() {
    let header = Header {
        kind: fourcc(b"mdat"),
        size: None,
    };
    let mut buf = Vec::new();
    header.encode(&mut buf).unwrap();
    assert_eq!(buf, vec![0, 0, 0, 0, b'm', b'd', b'a', b't']);
    assert_eq!(header.encode_size(), 8);
    assert_eq!(Header::decode_prefix(&buf).unwrap(), (header, 8));
}

#[test]
fn header_sizes_that_cannot_be_right() {
    assert_eq!(
        Header::decode_prefix(&[0, 0, 0, 5, b'f', b'r', b'e', b'e']),
        Err(Error::InvalidSize)
    );
    assert_eq!(
        Header::decode_prefix(&[0, 0, 0, 1, b'f', b'r', b'e', b'e', 0, 0, 0, 0, 0, 0, 0, 15]),
        Err(Error::InvalidSize)
    );
    assert_eq!(
        Header::decode_prefix(&[0, 0, 0, 8, b'f']),
        Err(Error::OutOfBounds)
    );
    assert_eq!(Header::decode_maybe(&[0, 0, 0]), Ok(None));
}

#[test]
fn unknown_atom_round_trips() {
    let unknown = Unknown {
        kind: fourcc(b"free"),
        data: vec![1, 2, 3],
    };
    let mut buf = Vec::new();
    unknown.encode(&mut buf).unwrap();
    assert_eq!(buf, vec![0, 0, 0, 11, b'f', b'r', b'e', b'e', 1, 2, 3]);
    assert_eq!(unknown.encode_size(), 11);
    let decoded = Unknown::decode(&mut buf.as_slice()).unwrap();
    assert_eq!(decoded, unknown);
}

#[test]
fn unknown_atom_past_the_end_keeps_what_is_there() {
    let bytes = [0, 0, 0, 20, b'f', b'r', b'e', b'e', 7, 8];
    let decoded = Unknown::decode(&mut &bytes[..]).unwrap();
    assert_eq!(decoded.data, vec![7, 8]);
}

#[test]
fn decoding_another_type_is_an_unexpected_box() {
    let mut buf = Vec::new();
    Sthd {}.encode(&mut buf).unwrap();
    assert_eq!(
        Stss::decode(&mut buf.as_slice()),
        Err(Error::UnexpectedBox(fourcc(b"sthd")))
    );
}

#[test]
fn unused_body_bytes_are_an_under_decode() {
    let bytes = [0, 0, 0, 16, b's', b't', b'h', b'd', 0, 0, 0, 0, 9, 9, 9, 9];
    assert_eq!(
        Sthd::decode(&mut &bytes[..]),
        Err(Error::UnderDecode(fourcc(b"sthd")))
    );
}

#[test]
fn a_short_body_is_an_over_decode() {
    let bytes = [0, 0, 0, 12, b'p', b'a', b's', b'p', 0, 0, 0, 1];
    assert_eq!(
        Pasp::decode(&mut &bytes[..]),
        Err(Error::OverDecode(fourcc(b"pasp")))
    );
}

#[test]
fn decode_exact_wants_every_byte_used() {
    let mut buf = Vec::new();
    Sthd {}.encode(&mut buf).unwrap();
    let mut exact = buf.as_slice();
    assert_eq!(Sthd::decode_exact(&mut exact, 12), Ok(Sthd {}));
    assert!(exact.is_empty());
    buf.push(0);
    let mut longer = buf.as_slice();
    assert_eq!(Sthd::decode_exact(&mut longer, 13), Err(Error::ShortRead));
    let mut short = &buf[..5];
    assert_eq!(Sthd::decode_exact(&mut short, 12), Err(Error::OutOfBounds));
}

#[test]
fn decode_atom_body_checks_the_type() {
    let header = Header {
        kind: fourcc(b"pasp"),
        size: Some(8),
    };
    let body = [0, 0, 0, 4, 0, 0, 0, 3];
    let pasp: Pasp = decode_atom_body(header, &body).unwrap();
    assert_eq!(pasp, Pasp::new(4, 3).unwrap());
    let other = Header {
        kind: fourcc(b"btrt"),
        size: Some(8),
    };
    assert_eq!(
        decode_atom_body::<Pasp>(other, &body),
        Err(Error::UnexpectedBox(fourcc(b"btrt")))
    );
}

#[test]
fn esds_without_an_es_descriptor_is_missing_it() {
    let bytes = [0, 0, 0, 12, b'e', b's', b'd', b's', 0, 0, 0, 0];
    assert_eq!(
        Esds::decode(&mut &bytes[..]),
        Err(Error::MissingDescriptor(3))
    );
}

#[test]
fn esds_with_a_bare_decoder_config_is_unexpected() {
    let mut d = Vec::new();
    Descriptor::from(DecoderConfig::default())
        .encode(&mut d)
        .unwrap();
    let mut body = vec![0, 0, 0, 0];
    body.extend_from_slice(&d);
    let mut bytes = ((body.len() + 8) as u32).to_be_bytes().to_vec();
    bytes.extend_from_slice(b"esds");
    bytes.extend_from_slice(&body);
    assert_eq!(
        Esds::decode(&mut bytes.as_slice()),
        Err(Error::UnexpectedDescriptor(4))
    );
}

#[test]
fn notice_that_is_not_utf8_is_an_invalid_string() {
    let bytes = [
        0, 0, 0, 16, b'c', b'p', b'r', b't', 0, 0, 0, 0, 0x55, 0xc4, 0xff, 0,
    ];
    assert_eq!(Cprt::decode(&mut &bytes[..]), Err(Error::InvalidString));
}

#[test]
fn data_type_outside_the_table_is_unsupported() {
    let bytes = [0, 0, 0, 16, b'd', b'a', b't', b'a', 0, 0, 0, 7, 0, 0, 0, 0];
    assert_eq!(
        Data::decode(&mut &bytes[..]),
        Err(Error::Unsupported("data type"))
    );
}

#[test]
fn pcmc_of_an_unknown_version() {
    let bytes = [0, 0, 0, 14, b'p', b'c', b'm', b'C', 1, 0, 0, 0, 0, 16];
    assert_eq!(PcmC::decode(&mut &bytes[..]), Err(Error::UnknownVersion(1)));
}

#[test]
fn pcmc_format_flags_decide_the_byte_order() {
    let little = PcmC {
        big_endian: false,
        sample_size: 24,
    };
    let mut buf = Vec::new();
    little.encode(&mut buf).unwrap();
    assert_eq!(buf, vec![0, 0, 0, 14, b'p', b'c', b'm', b'C', 0, 0, 0, 0, 1, 24]);
    assert_eq!(PcmC::decode(&mut buf.as_slice()), Ok(little));
}

#[test]
fn chnl_version_0_explicit_positions_bytes() {
    let chnl = Chnl {
        channel_structure: Some(ChannelStructure::ExplicitPositions {
            positions: vec![
                SpeakerPosition::Standard(AudioChannelPosition::FrontLeft),
                SpeakerPosition::Explicit(ExplicitSpeakerPosition {
                    azimuth: 45,
                    elevation: 10,
                }),
            ],
        }),
        object_count: None,
        format_ordering: None,
        base_channel_count: None,
    };
    let mut buf = Vec::new();
    chnl.encode(&mut buf).unwrap();
    assert_eq!(
        buf,
        vec![0, 0, 0, 19, b'c', b'h', b'n', b'l', 0, 0, 0, 0, 1, 0, 0, 0x7e, 0, 0x2d, 0x0a]
    );
    let (decoded, used) = Chnl::decode_body_with_channel_count(&buf[8..], 2).unwrap();
    assert_eq!(decoded, chnl);
    assert_eq!(used, 11);
}

#[test]
fn chnl_errors() {
    let chnl = Chnl {
        channel_structure: None,
        object_count: None,
        format_ordering: Some(16),
        base_channel_count: Some(2),
    };
    assert_eq!(
        chnl.encode(&mut Vec::new()),
        Err(Error::TooLarge(fourcc(b"chnl")))
    );
    assert_eq!(
        Chnl::decode_body_with_channel_count(&[2, 0, 0, 0, 0, 0], 2),
        Err(Error::UnknownVersion(2))
    );
    // Version 1 with objects, but a base count below the channels of the entry.
    assert_eq!(
        Chnl::decode_body_with_channel_count(&[1, 0, 0, 0, 0x20, 1], 2),
        Err(Error::InvalidSize)
    );
    assert_eq!(
        Chnl::decode_body_with_channel_count(&[0, 0, 0], 2),
        Err(Error::OutOfBounds)
    );
}

#[test]
fn channel_position_codes() {
    assert_eq!(AudioChannelPosition::from_code(0), AudioChannelPosition::FrontLeft);
    assert_eq!(
        AudioChannelPosition::from_code(31),
        AudioChannelPosition::TopSurroundRight
    );
    assert_eq!(
        AudioChannelPosition::from_code(40),
        AudioChannelPosition::Unknown(40)
    );
    assert_eq!(AudioChannelPosition::LowFrequencyEffects.code(), 3);
}

fn stereo() -> Audio {
    Audio {
        data_reference_index: 1,
        channel_count: 2,
        sample_size: 16,
        sample_rate: 48000.into(),
    }
}

#[test]
fn pcm_format_from_the_type() {
    let fl32 = Fl32 {
        audio: stereo(),
        pcmc: None,
        chnl: None,
        btrt: None,
    };
    assert_eq!(
        fl32.format(),
        Some(PcmFormat {
            big_endian: true,
            sample_size: 32,
            float: true,
        })
    );
    let sowt = Sowt {
        audio: stereo(),
        pcmc: None,
        chnl: None,
        btrt: None,
    };
    assert_eq!(
        sowt.format(),
        Some(PcmFormat {
            big_endian: false,
            sample_size: 16,
            float: false,
        })
    );
    let s16l = S16l {
        audio: Audio {
            sample_size: 8,
            ..stereo()
        },
        pcmc: None,
        chnl: None,
        btrt: None,
    };
    assert_eq!(
        s16l.format(),
        Some(PcmFormat {
            big_endian: false,
            sample_size: 16,
            float: false,
        })
    );
}

#[test]
fn pcm_format_from_the_pcmc_box_and_unknown_types() {
    let pcm = Pcm {
        fourcc: fourcc(b"abcd"),
        audio: stereo(),
        pcmc: None,
        chnl: None,
        btrt: None,
    };
    assert_eq!(pcm.format(), None);
    let with_pcmc = Pcm {
        pcmc: Some(PcmC {
            big_endian: false,
            sample_size: 24,
        }),
        ..pcm
    };
    assert_eq!(
        with_pcmc.format(),
        Some(PcmFormat {
            big_endian: false,
            sample_size: 24,
            float: false,
        })
    );
}

#[test]
fn pcm_children_past_the_end_stop_the_scan() {
    let mut fields = Vec::new();
    stereo().encode(&mut fields).unwrap();
    // A child that claims more bytes than are left ends the children.
    fields.extend_from_slice(&[0, 0, 0, 100, b'b', b't', b'r', b't']);
    let mut input = fields.as_slice();
    let pcm = Pcm::decode_with_fourcc(fourcc(b"twos"), &mut input).unwrap();
    assert_eq!(pcm.btrt, None);
    assert_eq!(input.len(), 8);
}

#[test]
fn mp4v_round_trips() {
    let mp4v = Mp4v {
        visual: Visual {
            data_reference_index: 1,
            width: 640,
            height: 480,
            horizresolution: 0x48.into(),
            vertresolution: 0x48.into(),
            frame_count: 1,
            compressor: "".into(),
            depth: 24,
        },
        esds: Esds {
            es_desc: EsDescriptor {
                es_id: 1,
                depends_on_es_id: None,
                url: None,
                ocr_es_id: None,
                stream_priority: 0,
                dec_config: DecoderConfig {
                    object_type_indication: 0x20,
                    stream_type: 0x04,
                    up_stream: 0,
                    buffer_size_db: Default::default(),
                    max_bitrate: 0,
                    avg_bitrate: 0,
                    dec_specific: DecoderSpecific::default(),
                },
                sl_config: SLConfig::default(),
            },
        },
        btrt: None,
        colr: Some(Colr::Nclx {
            colour_primaries: 1,
            transfer_characteristics: 13,
            matrix_coefficients: 6,
            full_range_flag: true,
        }),
        pasp: Some(Pasp::new(1, 1).unwrap()),
        fiel: Some(Fiel {
            field_count: 2,
            field_order: 9,
        }),
    };
    let mut buf = Vec::new();
    mp4v.encode(&mut buf).unwrap();
    let decoded = Mp4v::decode(&mut buf.as_slice()).unwrap();
    assert_eq!(decoded, mp4v);
    assert_eq!(decoded.esds.es_desc.dec_config.object_type_indication, 0x20);
}

#[test]
fn mp4v_without_esds_is_missing_it() {
    let mut visual = Vec::new();
    Visual::default().encode(&mut visual).unwrap();
    let mut bytes = ((visual.len() + 8) as u32).to_be_bytes().to_vec();
    bytes.extend_from_slice(b"mp4v");
    bytes.extend_from_slice(&visual);
    assert_eq!(
        Mp4v::decode(&mut bytes.as_slice()),
        Err(Error::MissingBox(fourcc(b"esds")))
    );
}

#[test]
fn tx3g_default_values() {
    let tx3g = Tx3g::default();
    assert_eq!(tx3g.horizontal_justification, 1);
    assert_eq!(tx3g.vertical_justification, -1);
    assert_eq!(
        tx3g.bg_color_rgba,
        RgbaColor {
            red: 0,
            green: 0,
            blue: 0,
            alpha: 255
        }
    );
    assert_eq!(tx3g.style_record, [0, 0, 0, 0, 0, 1, 0, 16, 255, 255, 255, 255]);
    assert_eq!(tx3g.ftab, None);
    assert_eq!(RgbaColor::default().alpha, 0);
}

#[test]
fn uuid_with_another_extended_type_round_trips() {
    let uuid = Uuid::Unknown(ExtendedType::new([7; 16]), vec![9, 8]);
    let mut buf = Vec::new();
    uuid.encode(&mut buf).unwrap();
    assert_eq!(buf.len(), 8 + 16 + 2);
    assert_eq!(Uuid::decode(&mut buf.as_slice()), Ok(uuid));
}

#[test]
fn metadata_item_values() {
    let year = IlstItem {
        data: Data {
            data_type: DataType::Text,
            data: b"2024".to_vec(),
        },
    };
    assert_eq!(item_to_u32(&year), Some(2024));
    assert_eq!(item_to_str(&year), "2024");
    assert_eq!(item_to_bytes(&year), b"2024");

    let plus = IlstItem {
        data: Data {
            data_type: DataType::Text,
            data: b"+12".to_vec(),
        },
    };
    assert_eq!(item_to_u32(&plus), Some(12));

    let not_a_number = IlstItem {
        data: Data {
            data_type: DataType::Text,
            data: b"12a".to_vec(),
        },
    };
    assert_eq!(item_to_u32(&not_a_number), None);

    let too_large = IlstItem {
        data: Data {
            data_type: DataType::Text,
            data: b"4294967296".to_vec(),
        },
    };
    assert_eq!(item_to_u32(&too_large), None);

    let binary = IlstItem {
        data: Data {
            data_type: DataType::Binary,
            data: vec![0, 0, 0x07, 0xe8],
        },
    };
    assert_eq!(item_to_u32(&binary), Some(2024));

    let image = IlstItem {
        data: Data {
            data_type: DataType::Image,
            data: vec![0, 0, 0x07, 0xe8],
        },
    };
    assert_eq!(item_to_u32(&image), None);

    let broken = IlstItem {
        data: Data {
            data_type: DataType::Text,
            data: vec![b'f', 0xff],
        },
    };
    assert_eq!(item_to_str(&broken), "f\u{FFFD}");
}

#[test]
fn reader_decisions() {
    assert_eq!(header_len(&[]), Ok(None));
    assert_eq!(header_len(&[0, 0, 0]), Err(Error::ShortRead));
    assert_eq!(header_len(&[0, 0, 0, 1, b'm', b'd', b'a', b't']), Ok(Some(16)));
    assert_eq!(header_len(&[0, 0, 0, 9, b'f', b'r', b'e', b'e']), Ok(Some(8)));
    assert_eq!(check_filled(3, Some(8)), Err(Error::ShortRead));
    assert_eq!(check_filled(8, Some(8)), Ok(()));
    assert_eq!(check_filled(0, None), Ok(()));
    assert_eq!(read_limit(10, 4), 6);
    assert_eq!(read_limit(4, 10), 0);
    assert_eq!(discard_split(3, 10), (3, 7));
    assert_eq!(discard_split(30, 10), (10, 0));
    assert_eq!(check_discarded(6, 7), Err(Error::ShortRead));
    assert_eq!(check_discarded(7, 7), Ok(()));
    assert_eq!(raw_read_len(100, Some(5)), 5);
    assert_eq!(raw_read_len(3, Some(5)), 3);
    assert_eq!(raw_read_len(3, None), 3);
    assert_eq!(raw_remain_after(Some(5), 3), Some(2));
    assert_eq!(raw_remain_after(None, 3), None);

    let header = ReaderHeader::new(
        (),
        Header {
            kind: fourcc(b"moov"),
            size: Some(100),
        },
    );
    assert_eq!(header.kind(), fourcc(b"moov"));
    assert_eq!(header.size(), Some(100));
}

fn sample_esds() -> Esds {
    Esds {
        es_desc: EsDescriptor {
            es_id: 1,
            depends_on_es_id: None,
            url: None,
            ocr_es_id: None,
            stream_priority: 0,
            // object_type_indication 0x20 = MPEG-4 Visual; stream_type 0x04 = VisualStream.
            dec_config: DecoderConfig {
                object_type_indication: 0x20,
                stream_type: 0x04,
                up_stream: 0,
                buffer_size_db: Default::default(),
                max_bitrate: 0,
                avg_bitrate: 0,
                dec_specific: DecoderSpecific {
                    profile: 0,
                    freq_index: 0,
                    sample_rate: None,
                    chan_conf: 0,
                },
            },
            sl_config: SLConfig::default(),
        },
    }
}

#[test]
fn test_mp4v_roundtrip() {
    let expected = Mp4v {
        visual: Visual {
            data_reference_index: 1,
            width: 640,
            height: 480,
            horizresolution: 0x48.into(),
            vertresolution: 0x48.into(),
            frame_count: 1,
            compressor: "".into(),
            depth: 24,
        },
        esds: sample_esds(),
        btrt: None,
        colr: None,
        pasp: None,
        fiel: None,
    };

    let mut buf = Vec::new();
    expected.encode(&mut buf).unwrap();

    let mut buf = buf.as_slice();
    let decoded = Mp4v::decode(&mut buf).unwrap();
    assert_eq!(decoded, expected);
    assert_eq!(decoded.visual.width, 640);
    assert_eq!(decoded.visual.height, 480);
    assert_eq!(decoded.esds.es_desc.dec_config.object_type_indication, 0x20);
}

#[test]
fn colour_information_kinds() {
    let icc = Colr::Ricc {
        profile: vec![1, 2, 3],
    };
    let mut buf = Vec::new();
    icc.encode(&mut buf).unwrap();
    assert_eq!(
        buf,
        vec![0, 0, 0, 15, b'c', b'o', b'l', b'r', b'r', b'I', b'C', b'C', 1, 2, 3]
    );
    assert_eq!(Colr::decode(&mut buf.as_slice()), Ok(icc));
    let other = [0, 0, 0, 12, b'c', b'o', b'l', b'r', b'a', b'b', b'c', b'd'];
    assert_eq!(
        Colr::decode(&mut &other[..]),
        Err(Error::Unsupported("colour type"))
    );
}

#[test]
fn fixed_point_from_an_integer() {
    let v: FixedPoint<u16> = FixedPoint::from(48000u16);
    assert_eq!(v.integer(), 48000);
    assert_eq!(v.decimal(), 0);
}

#[test]
fn an_atom_read_from_a_stream_uses_its_whole_body() {
    let header = Header {
        kind: fourcc(b"pasp"),
        size: Some(9),
    };
    let body = [0, 0, 0, 4, 0, 0, 0, 3, 7];
    assert_eq!(
        decode_read_atom::<Pasp>(header, &body),
        Err(Error::ShortRead)
    );
    assert_eq!(
        decode_read_atom::<Pasp>(header, &body[..8]),
        Ok(Pasp::new(4, 3).unwrap())
    );
    assert_eq!(
        decode_read_atom::<Sthd>(header, &body[..4]),
        Err(Error::UnexpectedBox(fourcc(b"pasp")))
    );
}
