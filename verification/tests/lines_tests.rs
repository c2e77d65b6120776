use mailsync::lines::{first_line, flush, join_with_lf, parse_u32, parse_u64, split_byte_vec,
    split_lines_vec, u32_to_dec};

#[test]
fn first_line_of_block() {
    assert_eq!(first_line(b"+OK ready\r\nrest"), Some(b"+OK ready".to_vec()));
    assert_eq!(first_line(b"bare line"), Some(b"bare line".to_vec()));
    assert_eq!(first_line(b"lf only\nrest"), Some(b"lf only".to_vec()));
    assert_eq!(first_line(b""), None);
    assert_eq!(first_line(b"\r\n"), Some(b"".to_vec()));
}

#[test]
fn flush_moves_bytes() {
    let mut a = b"ab".to_vec();
    let mut b = b"cd".to_vec();
    flush(&mut a, &mut b);
    assert_eq!(a, b"abcd".to_vec());
    assert!(b.is_empty());
}

#[test]
fn split_lines_like_text() {
    let ls = split_lines_vec(b"one\r\ntwo\nthree\n");
    assert_eq!(ls, vec![b"one".to_vec(), b"two".to_vec(), b"three".to_vec()]);
    let ls = split_lines_vec(b"a\n\nb");
    assert_eq!(ls, vec![b"a".to_vec(), b"".to_vec(), b"b".to_vec()]);
    assert_eq!(split_lines_vec(b""), Vec::<Vec<u8>>::new());
}

#[test]
fn split_on_spaces_keeps_empties() {
    let f = split_byte_vec(b"+OK 6 120", 32);
    assert_eq!(f, vec![b"+OK".to_vec(), b"6".to_vec(), b"120".to_vec()]);
    let f = split_byte_vec(b"a  b", 32);
    assert_eq!(f, vec![b"a".to_vec(), b"".to_vec(), b"b".to_vec()]);
}

#[test]
fn join_lines_with_lf() {
    let ls = vec![b"+OK".to_vec(), b"a".to_vec(), b"b".to_vec()];
    assert_eq!(join_with_lf(&ls, 1), b"a\nb".to_vec());
    assert_eq!(join_with_lf(&ls, 0), b"+OK\na\nb".to_vec());
    assert_eq!(join_with_lf(&ls, 3), b"".to_vec());
}

#[test]
fn decimal_parsing() {
    assert_eq!(parse_u32(b"0"), Some(0));
    assert_eq!(parse_u32(b"995"), Some(995));
    assert_eq!(parse_u32(b"4294967295"), Some(u32::MAX));
    assert_eq!(parse_u32(b"4294967296"), None);
    assert_eq!(parse_u32(b""), None);
    assert_eq!(parse_u32(b"+7"), None);
    assert_eq!(parse_u32(b"12a"), None);
    assert_eq!(parse_u64(b"18446744073709551615"), Some(u64::MAX));
    assert_eq!(parse_u64(b"18446744073709551616"), None);
}

#[test]
fn decimal_rendering() {
    assert_eq!(u32_to_dec(0), b"0".to_vec());
    assert_eq!(u32_to_dec(42), b"42".to_vec());
    assert_eq!(u32_to_dec(4294967295), b"4294967295".to_vec());
}
