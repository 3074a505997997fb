use bookstore::wide_path::{v16_to_v8, v8_to_v16};

#[test]
fn wide_units_as_big_endian_bytes() {
    assert_eq!(v16_to_v8(vec![0x0102, 0xff00]), vec![1, 2, 0xff, 0]);
    assert_eq!(v8_to_v16(vec![1, 2, 0xff, 0]), vec![0x0102, 0xff00]);
    assert!(v8_to_v16(vec![]).is_empty());
    let units: Vec<u16> = "C:\\Bücher\\x.epub".encode_utf16().collect();
    assert_eq!(v8_to_v16(v16_to_v8(units.clone())), units);
    let bytes = vec![0u8, 67, 0, 58, 0x30, 0x42];
    assert_eq!(v16_to_v8(v8_to_v16(bytes.clone())), bytes);
}
