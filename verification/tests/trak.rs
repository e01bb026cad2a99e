use mp4_atom::{Decode, Encode, Matrix, RgbColor, Sthd, Tkhd, TrackReferenceTypeBox, Tref, Vmhd};

#[test]
fn test_sthd() {
    let sthd = Sthd {};
    let mut buf = Vec::new();
    sthd.encode(&mut buf).unwrap();
    assert_eq!(
        buf,
        vec![0x00, 0x00, 0x00, 0x0c, b's', b't', b'h', b'd', 0x00, 0x00, 0x00, 0x00]
    );

    let mut buf = buf.as_slice();
    let decoded = Sthd::decode(&mut buf).unwrap();
    assert_eq!(decoded, sthd);
}

const ENCODED_VMHD: &[u8] = &[
    0x00, 0x00, 0x00, 0x14, b'v', b'm', b'h', b'd', 0x00, 0x00, 0x00, 0x01, 0x00, 0x00, 0x00,
    0x00, 0x00, 0x00, 0x00, 0x00,
];

#[test]
fn test_vmhd_encode() {
    let expected = Vmhd {
        graphics_mode: 0,
        op_color: RgbColor {
            red: 0,
            green: 0,
            blue: 0,
        },
    };
    let mut buf = Vec::new();
    expected.encode(&mut buf).unwrap();

    assert_eq!(buf.as_slice(), ENCODED_VMHD);
}

#[test]
fn test_vmhd_decode() {
    let mut buf: &[u8] = ENCODED_VMHD;
    let decoded = Vmhd::decode(&mut buf).unwrap();

    let expected = Vmhd {
        graphics_mode: 0,
        op_color: RgbColor {
            red: 0,
            green: 0,
            blue: 0,
        },
    };
    assert_eq!(decoded, expected);
}

#[test]
fn test_tkhd32() {
    let expected = Tkhd {
        creation_time: 100,
        modification_time: 200,
        track_id: 1,
        duration: 634634,
        layer: 0,
        alternate_group: 0,
        volume: 1.into(),
        matrix: Matrix::default(),
        width: 512.into(),
        height: 288.into(),
        enabled: true,
    };
    let mut buf = Vec::new();
    expected.encode(&mut buf).unwrap();

    let mut buf = buf.as_slice();
    let decoded = Tkhd::decode(&mut buf).unwrap();
    assert_eq!(decoded, expected);
}

#[test]
fn test_tkhd64() {
    let expected = Tkhd {
        creation_time: 100,
        modification_time: 200,
        track_id: 1,
        duration: 634634,
        layer: 0,
        alternate_group: 0,
        volume: 1.into(),
        matrix: Matrix::default(),
        width: 512.into(),
        height: 288.into(),
        enabled: true,
    };
    let mut buf = Vec::new();
    expected.encode(&mut buf).unwrap();

    let mut buf = buf.as_slice();
    let decoded = Tkhd::decode(&mut buf).unwrap();
    assert_eq!(decoded, expected);
}

// From the 01_simple.mp4 sample in MPEG's file format conformance set
const ENCODED_TREF: &[u8] = &[
    0x00, 0x00, 0x00, 0x24, 0x74, 0x72, 0x65, 0x66, 0x00, 0x00, 0x00, 0x0c, 0x73, 0x79, 0x6e,
    0x63, 0x00, 0x00, 0x00, 0x01, 0x00, 0x00, 0x00, 0x10, 0x6d, 0x70, 0x6f, 0x64, 0x00, 0x00,
    0x00, 0xc9, 0x00, 0x00, 0x00, 0x65,
];

#[test]
fn test_tref_decode() {
    let mut input: &[u8] = ENCODED_TREF;
    let buf = &mut input;

    let tref = Tref::decode(buf).expect("failed to decode tref");

    assert_eq!(
        tref,
        Tref {
            track_reference_type_boxes: vec![
                TrackReferenceTypeBox {
                    reference_type: b"sync".into(),
                    track_ids: vec![1]
                },
                TrackReferenceTypeBox {
                    reference_type: b"mpod".into(),
                    track_ids: vec![201, 101]
                }
            ]
        }
    );
}

#[test]
fn test_tref_encode() {
    let tref = Tref {
        track_reference_type_boxes: vec![
            TrackReferenceTypeBox {
                reference_type: b"sync".into(),
                track_ids: vec![1],
            },
            TrackReferenceTypeBox {
                reference_type: b"mpod".into(),
                track_ids: vec![201, 101],
            },
        ],
    };

    let mut buf = Vec::new();
    tref.encode(&mut buf).unwrap();

    assert_eq!(buf.as_slice(), ENCODED_TREF);
}
