use almetica::ser::{push_bool, push_u16, push_u32, push_u64, push_u8};

#[test]
fn test_primitive_encoding() {
    // A struct of u8, i8, f32 and f64 fields encodes to its little-endian
    // bytes in field order.
    let mut out: Vec<u8> = Vec::new();
    push_u8(&mut out, 18);
    push_u8(&mut out, (-13i8) as u8);
    push_u32(&mut out, 2.2f32.to_bits());
    push_u64(&mut out, 1.0f64.to_bits());
    assert_eq!(
        out,
        vec![0x12, 0xf3, 0xCD, 0xCC, 0x0C, 0x40, 0x00, 0x00, 0x00, 0x00, 0x00, 0x00, 0xf0, 0x3f]
    );
}

#[test]
fn test_scalar_encoders() {
    let mut out: Vec<u8> = Vec::new();
    push_bool(&mut out, true);
    push_bool(&mut out, false);
    push_u16(&mut out, 0x0201);
    assert_eq!(out, vec![0x01, 0x00, 0x01, 0x02]);
}
