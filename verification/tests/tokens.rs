use httpencode::{is_token, validate_uri, CheckedField, CheckedValue, Header, Method, Uri};

#[test]
fn token_accepts_letters_digits_and_specials() {
    assert!(is_token("Content-Type"));
    assert!(is_token("abcdefghijklmnopqrstuvwxyz"));
    assert!(is_token("ABCDEFGHIJKLMNOPQRSTUVWXYZ"));
    assert!(is_token("0123456789"));
    assert!(is_token("!#$%&'*+-.^_`|~"));
    assert!(is_token("a"));
    assert!(is_token("."));
}

#[test]
fn token_accepts_each_special_alone() {
    for c in "!#$%&'*+-.^_`|~".chars() {
        assert!(is_token(&c.to_string()), "{}", c);
    }
}

#[test]
fn token_rejects_empty() {
    assert!(!is_token(""));
}

#[test]
fn token_rejects_every_other_ascii_byte() {
    let allowed = "!#$%&'*+-.^_`|~";
    for b in 0u8..128 {
        let c = b as char;
        let expected = c.is_ascii_alphanumeric() || allowed.contains(c);
        assert_eq!(is_token(&c.to_string()), expected, "byte {}", b);
    }
}

#[test]
fn token_rejects_delimiters_controls_and_high_bytes() {
    assert!(!is_token("Spaced Header"));
    assert!(!is_token("Has\r\nNewline"));
    assert!(!is_token("Has\x7FDEL"));
    assert!(!is_token("Has\0NUL"));
    assert!(!is_token("HI\u{0080}BYTE"));
    assert!(!is_token("a:b"));
    assert!(!is_token("a\"b"));
    assert!(!is_token("(a)"));
    assert!(!is_token("a,b"));
    assert!(!is_token("a/b"));
    assert!(!is_token("a@b"));
    assert!(!is_token("a\tb"));
}

#[test]
fn checked_field_try_new_follows_is_token() {
    assert!(CheckedField::try_new("X-Custom.Field").is_ok());
    assert_eq!(CheckedField::try_new("Host").unwrap().as_str(), "Host");
    assert!(CheckedField::try_new("").is_err());
    assert!(CheckedField::try_new("Inner    Spaces").is_err());
    assert!(CheckedField::try_new("Has\x7FDEL").is_err());
    assert!(CheckedField::try_new("HI\u{0080}BYTE").is_err());
    assert_eq!(
        CheckedField::try_new("a b").unwrap_err().message(),
        "Header contained invalid character"
    );
}

#[test]
fn checked_field_values_compare_by_name() {
    assert_eq!(CheckedField::new("Host"), CheckedField::new("Host"));
    assert_ne!(CheckedField::new("Host"), CheckedField::new("host"));
}

#[test]
fn method_try_new_follows_is_token() {
    assert_eq!(Method::try_new("PATCH").unwrap().as_str(), "PATCH");
    for bad in ["", "\u{0080}", " ", "\x7F", "\0", "\r\n"] {
        let err = Method::try_new(bad).unwrap_err();
        assert_eq!(err.message(), "Custom HTTP method contained invalid character");
    }
}

#[test]
fn standard_methods_have_their_names() {
    assert_eq!(Method::get().as_str(), "GET");
    assert_eq!(Method::head().as_str(), "HEAD");
    assert_eq!(Method::post().as_str(), "POST");
    assert_eq!(Method::put().as_str(), "PUT");
    assert_eq!(Method::delete().as_str(), "DELETE");
    assert_eq!(Method::connect().as_str(), "CONNECT");
    assert_eq!(Method::options().as_str(), "OPTIONS");
    assert_eq!(Method::trace().as_str(), "TRACE");
}

#[test]
fn uri_accepts_all_but_space_cr_lf_and_empty() {
    assert!(Uri::try_new(b"https://example.com").is_ok());
    assert!(Uri::try_new(b"/test#anchor").is_ok());
    assert!(Uri::try_new(b"/\xFF").is_ok());
    assert!(Uri::try_new(b"\t\0\x7f").is_ok());
    for bad in [
        &b""[..],
        b" ",
        b"\r\n",
        b"https://contains space.com/",
        b"contains\r\newline.com/example",
        b"has\rCR",
        b"has\nLF",
        b"trailing ",
    ] {
        assert!(Uri::try_new(bad).is_err());
        assert!(Uri::try_new_const(bad).is_err());
        assert!(!validate_uri(bad));
    }
    assert_eq!(
        Uri::try_new(b"a b").unwrap_err().message(),
        "URI contained invalid character"
    );
}

#[test]
fn both_uri_checks_agree_on_every_short_input() {
    let alphabet = [b'a', b' ', b'\r', b'\n', b'/', 0xffu8];
    for a in alphabet {
        for b in alphabet {
            for c in alphabet {
                let input = [a, b, c];
                for len in 0..=3 {
                    let uri = &input[..len];
                    assert_eq!(Uri::try_new(uri).is_ok(), Uri::try_new_const(uri).is_ok());
                    assert_eq!(Uri::try_new(uri).is_ok(), validate_uri(uri));
                }
            }
        }
    }
}

#[test]
fn checked_value_accepts_folds_only() {
    for good in [
        &b"\0"[..],
        b"",
        b"\xff\x00",
        b"\r\n ",
        b"\r\n\t",
        b"spaced     out",
        b"\r",
        b"\r ",
        b"\r a",
        b"\n\r",
        b"a\r\n b\r\n\tc",
        b"\"\r\n \"",
    ] {
        let v1 = CheckedValue::new(good);
        let v2 = CheckedValue::new_unchecked(good);
        assert!(v1 == v2);
        assert!(v1.as_bytes() == good);
        assert!(CheckedValue::check_valid_const(good));
        assert!(CheckedValue::try_new(good).is_ok());
    }
}

#[test]
fn checked_value_rejects_any_bare_line_break() {
    for bad in [
        &b"\r\n"[..],
        b"\r\na",
        b"\r\n\r\n",
        b"ab\r\nc",
        b"abc\r\n",
        b"a\r\n b\r\nc",
        b"\"\r\n\"",
        b"\\\r\n",
        b"\r\r\n",
        b"\r\n \r\n",
    ] {
        assert!(!CheckedValue::check_valid_const(bad));
        let err = CheckedValue::try_new(bad).unwrap_err();
        assert_eq!(err.message(), "Header contained invalid character");
    }
}

#[test]
fn memchr_const_finds_the_first_from_start() {
    assert_eq!(CheckedValue::memchr_const(b'a', b"banana", 0), Some(1));
    assert_eq!(CheckedValue::memchr_const(b'a', b"banana", 1), Some(1));
    assert_eq!(CheckedValue::memchr_const(b'a', b"banana", 2), Some(3));
    assert_eq!(CheckedValue::memchr_const(b'a', b"banana", 6), None);
    assert_eq!(CheckedValue::memchr_const(b'a', b"banana", 100), None);
    assert_eq!(CheckedValue::memchr_const(b'x', b"banana", 0), None);
    assert_eq!(CheckedValue::memchr_const(b'x', b"", 0), None);
}

#[test]
fn header_try_new_checks_the_name_only() {
    assert!(Header::try_new("X-A", "any\r\nvalue").is_ok());
    assert!(Header::try_new("X A", 1u8).is_err());
    assert!(Header::try_new("X:A", 1u8).is_err());
}
