use cloudapi_installr::text::{chars_of, hex_digit, join, same_text, to_lower_hex};

#[test]
fn join_puts_a_slash_between() {
    assert_eq!(join("/var/lib", "cloud-api"), "/var/lib/cloud-api");
    assert_eq!(join("", "x"), "/x");
    assert_eq!(join("a/", "b"), "a//b");
}

#[test]
fn chars_of_lists_characters() {
    assert_eq!(chars_of("aü/"), vec!['a', 'ü', '/']);
    assert_eq!(chars_of(""), Vec::<char>::new());
}

#[test]
fn same_text_compares_content() {
    assert!(same_text("abc", "abc"));
    assert!(!same_text("abc", "abd"));
    assert!(!same_text("abc", "ab"));
    assert!(same_text("", ""));
}

#[test]
fn hex_digits_are_lowercase() {
    let expected = ['0', '1', '2', '3', '4', '5', '6', '7', '8', '9', 'a', 'b', 'c', 'd', 'e', 'f'];
    for n in 0u8..16 {
        assert_eq!(hex_digit(n), expected[n as usize]);
    }
}

#[test]
fn bytes_render_as_two_digits_each() {
    assert_eq!(to_lower_hex(&[]), "");
    assert_eq!(to_lower_hex(&[0x00]), "00");
    assert_eq!(to_lower_hex(&[0x0f, 0xf0, 0xab, 0x10, 0xff]), "0ff0ab10ff");
}
