use inotify::cstr::from_c_string;
use inotify::cstr::to_c_string;

#[test]
fn to_c_string_puts_a_zero_byte_after_the_text() {
    assert_eq!(to_c_string(b"abc"), Some(vec![b'a', b'b', b'c', 0]));
    assert_eq!(to_c_string(b""), Some(vec![0]));
    assert_eq!(to_c_string(&[0xff, 0x01]), Some(vec![0xff, 0x01, 0]));
}

#[test]
fn to_c_string_refuses_a_zero_byte_in_the_text() {
    assert_eq!(to_c_string(b"\0"), None);
    assert_eq!(to_c_string(b"ab\0"), None);
    assert_eq!(to_c_string(b"\0ab"), None);
    assert_eq!(to_c_string(b"a\0b"), None);
}

#[test]
fn from_c_string_ends_at_the_first_zero_byte() {
    assert_eq!(from_c_string(b"abc\0"), Vec::from("abc"));
    assert_eq!(from_c_string(b"abc\0def\0"), Vec::from("abc"));
    assert_eq!(from_c_string(b"\0abc"), Vec::<u8>::new());
    assert_eq!(from_c_string(b"abc\0\0\0\0\0"), Vec::from("abc"));
}

#[test]
fn from_c_string_takes_everything_where_no_byte_is_zero() {
    assert_eq!(from_c_string(b"abc"), Vec::from("abc"));
    assert_eq!(from_c_string(b""), Vec::<u8>::new());
}

#[test]
fn from_c_string_reads_back_what_to_c_string_wrote() {
    let texts: [&[u8]; 4] = [b"", b"a", b"/tmp/some file", &[0xff, 0xfe, 0x01]];
    for text in texts {
        let terminated: Vec<u8> = to_c_string(text).unwrap();
        assert_eq!(terminated.len(), text.len() + 1);
        assert_eq!(from_c_string(&terminated), Vec::from(text));
    }
}
