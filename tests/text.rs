use winclip::text::{decimal_len, push_ascii, push_bytes, push_decimal, push_padded};

#[test]
fn padded_numbers() {
    let mut v = Vec::new();
    push_padded(&mut v, 131, 8);
    assert_eq!(v, b"00000131".to_vec());
    let mut v = Vec::new();
    push_padded(&mut v, 123456789, 8);
    assert_eq!(v, b"123456789".to_vec());
    let mut v = Vec::new();
    push_padded(&mut v, 0, 3);
    assert_eq!(v, b"000".to_vec());
    let mut v = b"x=".to_vec();
    push_padded(&mut v, 7, 0);
    assert_eq!(v, b"x=7".to_vec());
}

#[test]
fn decimal_rendering() {
    let mut v = Vec::new();
    push_decimal(&mut v, 0);
    push_ascii(&mut v, ",");
    push_decimal(&mut v, usize::MAX);
    assert_eq!(String::from_utf8(v).unwrap(), format!("0,{}", usize::MAX));
    assert_eq!(decimal_len(0), 1);
    assert_eq!(decimal_len(10), 2);
    assert_eq!(decimal_len(99999999), 8);
    assert_eq!(decimal_len(usize::MAX), usize::MAX.to_string().len());
}

#[test]
fn pushing_bytes_appends() {
    let mut v = b"ab".to_vec();
    push_bytes(&mut v, b"cd");
    push_bytes(&mut v, b"");
    assert_eq!(v, b"abcd".to_vec());
}
