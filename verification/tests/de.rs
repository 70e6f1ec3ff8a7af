use almetica::de::Deserializer;
use almetica::error::Error;

#[test]
fn test_primitive_struct() -> Result<(), Error> {
    let data = vec![
        0x12, 0xf3, 0xCD, 0xCC, 0x0C, 0x40, 0x00, 0x00, 0x00, 0x00, 0x00, 0x00, 0xf0, 0x3f,
    ];

    let mut de = Deserializer::from_vec(data);
    let a = de.read_u8()?;
    let b = de.read_i8()?;
    let c = f32::from_bits(de.read_f32_bits()?);
    let d = f64::from_bits(de.read_f64_bits()?);

    assert_eq!(a, 18);
    assert_eq!(b, -13);
    assert_eq!(c, 2.2);
    assert_eq!(d, 1.0);
    Ok(())
}

#[test]
fn test_primitive_widths() -> Result<(), Error> {
    let data = vec![
        0x01, 0x02, // u16 0x0201
        0xff, 0xff, // i16 -1
        0x78, 0x56, 0x34, 0x12, // u32
        0xfe, 0xff, 0xff, 0xff, // i32 -2
        0x01, 0x00, 0x00, 0x00, 0x00, 0x00, 0x00, 0x80, // u64
        0xfd, 0xff, 0xff, 0xff, 0xff, 0xff, 0xff, 0xff, // i64 -3
    ];
    let mut de = Deserializer::from_vec(data);
    assert_eq!(de.read_u16()?, 0x0201);
    assert_eq!(de.read_i16()?, -1);
    assert_eq!(de.read_u32()?, 0x1234_5678);
    assert_eq!(de.read_i32()?, -2);
    assert_eq!(de.read_u64()?, 0x8000_0000_0000_0001);
    assert_eq!(de.read_i64()?, -3);
    Ok(())
}

#[test]
fn test_truncated_read_is_an_error() {
    let mut de = Deserializer::from_vec(vec![0x01]);
    assert_eq!(de.read_u32(), Err(Error::OffsetOutsideData(0, 4)));
}

#[test]
fn test_bool_encodings() -> Result<(), Error> {
    let mut de = Deserializer::from_vec(vec![0x01, 0x00, 0x02]);
    assert_eq!(de.read_bool()?, true);
    assert_eq!(de.read_bool()?, false);
    assert_eq!(de.read_bool(), Err(Error::InvalidBoolEncoding(2, 2)));
    Ok(())
}

#[test]
fn test_abs_offset() {
    let de = Deserializer::from_vec(vec![]);
    assert_eq!(de.abs_offset(0), 0);
    assert_eq!(de.abs_offset(8), 4);
}

#[test]
fn test_read_str_scans_to_terminator() -> Result<(), Error> {
    // Header points at absolute offset 6 (body 2); two UCS-2 units then 00 00.
    let data = vec![0x06, 0x00, 0x68, 0x00, 0x69, 0x00, 0x00, 0x00];
    let mut de = Deserializer::from_vec(data);
    assert_eq!(de.read_str()?, vec![0x68, 0x69]);
    Ok(())
}

#[test]
fn test_read_str_without_terminator_is_an_error() {
    let data = vec![0x06, 0x00, 0x68, 0x00, 0x69, 0x00, 0x68, 0x00];
    let mut de = Deserializer::from_vec(data);
    assert_eq!(de.read_str(), Err(Error::StringNotNullTerminated(2)));
}

#[test]
fn test_read_bytes_checks_extent() {
    // Offset 8 (body 4), declared length 200: runs past the end.
    let data = vec![0x08, 0x00, 0xc8, 0x00, 0xaa, 0xbb];
    let mut de = Deserializer::from_vec(data);
    assert_eq!(de.read_bytes(), Err(Error::BytesTooBig(4)));
}

#[test]
fn test_read_bytes_payload() -> Result<(), Error> {
    let data = vec![0x08, 0x00, 0x02, 0x00, 0xaa, 0xbb];
    let mut de = Deserializer::from_vec(data);
    assert_eq!(de.read_bytes()?, vec![0xaa, 0xbb]);
    Ok(())
}
