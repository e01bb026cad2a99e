use mp4_atom::{Atom, C2pa, Error, Uuid};

#[test]
fn test_c2pa_round_trip() -> Result<(), Error> {
    let c2pa_box = Uuid::C2pa(C2pa {
        box_purpose: "urn:uuid:...".to_string(),
        data: vec![1, 2, 3, 4],
    });

    // 1. Encode into a byte buffer
    let mut buf = Vec::new();
    c2pa_box.encode_body(&mut buf)?;

    // 2. Decode back from the buffer
    let cursor = &buf[..];
    let (decoded, _) = Uuid::decode_body(cursor)?;

    // 3. Assert equality
    assert_eq!(c2pa_box, decoded, "They werent equal");
    Ok(())
}

#[test]
fn test_c2pa_uuid_golden_vector() -> Result<(), Error> {
    let mut bytes = Vec::new();

    // 1. C2pa Extended Type bytes (16 bytes from the specification)
    bytes.extend_from_slice(&[
        0xD8, 0xFE, 0xC3, 0xD6, 0x1B, 0x0E, 0x48, 0x3C, 0x92, 0x97, 0x58, 0x28, 0x87, 0x7E,
        0xC4, 0x81,
    ]);

    // 2. FullBox version and flags (version = 0, flags = 0 -> 4 bytes of 0x00)
    bytes.extend_from_slice(&[0x00, 0x00, 0x00, 0x00]);

    // 3. box_purpose string bytes (null-terminated UTF-8 string)
    bytes.extend_from_slice(b"urn:uuid:test\0");

    // 4. Data payload bytes (0xDEADBEEF)
    bytes.extend_from_slice(&[0xDE, 0xAD, 0xBE, 0xEF]);

    let cursor = &bytes[..];
    let (decoded, _) = Uuid::decode_body(cursor)?;

    let expected = Uuid::C2pa(C2pa {
        box_purpose: "urn:uuid:test".to_string(),
        data: vec![0xDE, 0xAD, 0xBE, 0xEF],
    });

    assert_eq!(decoded, expected);
    Ok(())
}
