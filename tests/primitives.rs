use media_proto::bytes::{
    separate, separate_trimmed, separate_trimmed_value, separate_value, trim, trim_value, while_separate,
    while_separate_trimmed,
};
use media_proto::text::{is_utf8, utf8_to_i32, utf8_to_str, utf8_to_u16, utf8_to_u8};

#[test]
fn test_trim() {
    let vec = vec![0, 0, 1, 2, 3, 0, 4, 5, 0, 0];
    assert_eq!(trim_value(&vec, 0), &[1, 2, 3, 0, 4, 5]);

    let vec = vec![1, 2, 3];
    assert_eq!(trim_value(&vec, 0), &[1, 2, 3]);

    let vec = vec![0, 0, 0];
    assert_eq!(trim_value(&vec, 0), &[] as &[u8]);
}

#[test]
fn test_separate() {
    let vec = vec![1, 2, 3, 4, 5];
    assert_eq!(separate_value(&vec, 3), Some((&[1, 2][..], &[4, 5][..])));
    assert_eq!(separate_value(&vec, 6), None);
}

#[test]
fn test_separate_trimmed() {
    let vec = vec![0, 1, 2, 3, 0, 4, 5, 0];
    assert_eq!(separate_trimmed_value(&vec, 3, 0), Some((&[1, 2][..], &[4, 5][..])));
    assert_eq!(separate_trimmed_value(&vec, 6, 0), None);
}

#[test]
fn trim_with_set_of_bytes() {
    assert_eq!(trim(&[0, 0, 1, 2, 3, 0, 4, 5, 0, 0], &[0]), &[1, 2, 3, 0, 4, 5]);
    assert_eq!(trim(&[], &[0]), &[] as &[u8]);
    assert_eq!(trim(b"\r\n a=b \r\n", b"\r\n "), b"a=b");
}

#[test]
fn trim_is_idempotent_on_examples() {
    let once = trim(b"  ;x; ;", b" ;");
    assert_eq!(trim(once, b" ;"), once);
    assert_eq!(once, b"x");
}

#[test]
fn separate_multi_byte_delimiters() {
    let v = [1u8, 2, 3, 4, 5];
    assert_eq!(separate(&v, &[3]), Some((&[1, 2][..], &[4, 5][..])));
    assert_eq!(separate(&v, &[3, 4]), Some((&[1, 2][..], &[5][..])));
    assert_eq!(separate(&v, &[1, 2]), Some((&[][..], &[3, 4, 5][..])));
    assert_eq!(separate(&v, &[4, 5]), Some((&[1, 2, 3][..], &[][..])));
    assert_eq!(separate(&v, &[6]), None);
    assert_eq!(separate(&v, &[2, 4]), None);
    assert_eq!(separate(&[3u8], &[3]), None);
}

#[test]
fn separate_is_left_biased() {
    assert_eq!(separate(b"a/b/c", b"/"), Some((&b"a"[..], &b"b/c"[..])));
}

#[test]
fn separate_trimmed_multi_byte() {
    let v = [0u8, 1, 2, 3, 0, 4, 5, 0];
    assert_eq!(separate_trimmed(&v, &[3], &[0]), Some((&[1, 2][..], &[4, 5][..])));
    assert_eq!(separate_trimmed(&v, &[2, 4], &[0]), None);
}

#[test]
fn while_separate_keeps_last_token() {
    let v = [1u8, 2, 3, 4, 5];
    assert_eq!(while_separate(&v, &[3]), Some((&[1, 2][..], &[4, 5][..])));
    assert_eq!(while_separate(&v, &[6]), Some((&[1, 2, 3, 4, 5][..], &[][..])));
    assert_eq!(while_separate(&v, &[1]), Some((&[][..], &[2, 3, 4, 5][..])));
    assert_eq!(while_separate(&v, &[5]), Some((&[1, 2, 3, 4][..], &[][..])));
    assert_eq!(while_separate(&[], &[5]), None);
    assert_eq!(while_separate_trimmed(&v, &[3], &[1, 5]), Some((&[2][..], &[4][..])));
    assert_eq!(while_separate_trimmed(&v, &[6], &[1, 5]), Some((&[2, 3, 4][..], &[][..])));
    assert_eq!(while_separate_trimmed(&v, &[1], &[1, 5]), Some((&[][..], &[2, 3, 4][..])));
}

#[test]
fn utf8_checks() {
    assert!(is_utf8(b"Hello, world!"));
    assert!(!is_utf8(&[0xff, 0xfe, 0xfd]));
    assert_eq!(utf8_to_str(b"Hello, world!").unwrap(), "Hello, world!");
    assert!(matches!(utf8_to_str(&[0xff, 0xfe, 0xfd]), Err(media_proto::error::CastError::Utf8Error(_))));
}

#[test]
fn numbers() {
    assert_eq!(utf8_to_i32(b"12345").unwrap(), 12345);
    assert_eq!(utf8_to_i32(b"-67890").unwrap(), -67890);
    assert!(utf8_to_i32(b"12a45").is_err());
    assert!(utf8_to_i32(b"1-2").is_err());
    assert!(utf8_to_i32(b"2147483648").is_err());
    assert_eq!(utf8_to_i32(b"2147483647").unwrap(), 2147483647);
    assert_eq!(utf8_to_u8(b"255").unwrap(), 255);
    assert!(utf8_to_u8(b"256").is_err());
    assert!(utf8_to_u8(b"-1").is_err());
    assert_eq!(utf8_to_u16(b"49170").unwrap(), 49170);
    assert!(matches!(utf8_to_u8(b"x"), Err(media_proto::error::CastError::InvalidData(_))));
}
