use reader::Deserializer;

#[test]
fn test_deserializer() {
    let buffer = vec![0, 0, 0, 0];
    assert_eq!(Deserializer::get_int(&buffer, 0), 0);

    let buffer = vec![0, 0, 0, 1];
    assert_eq!(Deserializer::get_int(&buffer, 0), 1);

    let buffer = vec![0, 0, 0, 127];
    assert_eq!(Deserializer::get_int(&buffer, 0), 127);

    let buffer = vec![0, 0, 0, 128];
    assert_eq!(Deserializer::get_int(&buffer, 0), 128);

    let buffer = vec![0, 0];
    assert_eq!(Deserializer::get_short(&buffer, 0), 0);

    let buffer = vec![0, 1];
    assert_eq!(Deserializer::get_short(&buffer, 0), 1);

    let buffer = vec![0, 127];
    assert_eq!(Deserializer::get_short(&buffer, 0), 127);
}

#[test]
fn fixed_width_numbers_are_signed_big_endian() {
    assert_eq!(Deserializer::get_short(&[0xff, 0xfe], 0), -2);
    assert_eq!(Deserializer::get_int(&[9, 0xff, 0xff, 0xff, 0xfe], 1), -2);
    assert_eq!(Deserializer::get_int(&[0x12, 0x34, 0x56, 0x78], 0), 0x12345678);
    assert_eq!(Deserializer::get_long(&[0x80, 0, 0, 0, 0, 0, 0, 0], 0), i64::MIN);
    assert_eq!(Deserializer::get_long(&[0, 0, 1, 0x37, 0x08, 0x9a, 0x2c, 0x0d], 0), 1335879150605);
    assert_eq!(Deserializer::get_five_bytes_long(&[0x80, 0, 0, 0, 1], 0), 0x8000000001);
}
