use gossamer::bytesutil::{bytes_eq, u32_from_be, u32_to_be_bytes, u64_to_be_bytes};
use gossamer::strutil::push_decimal;

#[test]
fn big_endian_renderings_are_exact() {
    assert_eq!(u32_to_be_bytes(0x01020304), vec![1, 2, 3, 4]);
    assert_eq!(u32_to_be_bytes(0), vec![0, 0, 0, 0]);
    assert_eq!(u32_to_be_bytes(u32::MAX), vec![0xff, 0xff, 0xff, 0xff]);
    assert_eq!(
        u64_to_be_bytes(0x0102030405060708),
        vec![1, 2, 3, 4, 5, 6, 7, 8]
    );
    assert_eq!(u32_from_be(1, 2, 3, 4), 0x01020304);
    assert_eq!(u32_from_be(0xff, 0xff, 0xff, 0xff), u32::MAX);
}

#[test]
fn byte_equality_compares_contents() {
    assert!(bytes_eq(&vec![1, 2, 3], &vec![1, 2, 3]));
    assert!(!bytes_eq(&vec![1, 2, 3], &vec![1, 2, 4]));
    assert!(!bytes_eq(&vec![1, 2], &vec![1, 2, 3]));
    assert!(bytes_eq(&vec![], &vec![]));
}

#[test]
fn decimal_rendering_is_exact() {
    let mut s = String::new();
    push_decimal(&mut s, 0);
    assert_eq!(s, "0");
    let mut s = String::new();
    push_decimal(&mut s, 1234567890);
    assert_eq!(s, "1234567890");
    let mut s = String::from("n=");
    push_decimal(&mut s, u64::MAX);
    assert_eq!(s, "n=18446744073709551615");
}
