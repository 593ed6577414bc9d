use openbao_certificate_client::text::{
    alphanumeric, begins, blank, byte_len, control, decimal_text, eq_ignoring_case, finishes,
    hex_digit, includes, joined, lower_char, lowercase, parse_unsigned, parts, replaced, split_once,
    text_eq, trimmed, upper_char, uppercase, whitespace, without_leading, without_trailing,
};

#[test]
fn characters_are_classified_as_in_the_standard_library() {
    for c in '\0'..=char::MAX {
        assert_eq!(whitespace(c), c.is_whitespace(), "{c:?}");
        assert_eq!(control(c), c.is_control(), "{c:?}");
        assert_eq!(alphanumeric(c), c.is_ascii_alphanumeric(), "{c:?}");
        assert_eq!(hex_digit(c), c.is_ascii_hexdigit(), "{c:?}");
        assert_eq!(lower_char(c), c.to_ascii_lowercase(), "{c:?}");
        assert_eq!(upper_char(c), c.to_ascii_uppercase(), "{c:?}");
    }
}

const SAMPLES: [&str; 9] = [
    "",
    " ",
    "a",
    "CN=Straße, O=x",
    "\t trimmed \u{a0}",
    "a:b:c",
    "//path//",
    "ÄbC",
    "\u{2003}\r\n",
];

#[test]
fn texts_are_handled_as_in_the_standard_library() {
    for s in SAMPLES {
        assert_eq!(blank(s), s.trim().is_empty(), "{s:?}");
        assert_eq!(trimmed(s), s.trim(), "{s:?}");
        assert_eq!(byte_len(s), s.len(), "{s:?}");
        assert_eq!(lowercase(s), s.to_ascii_lowercase(), "{s:?}");
        assert_eq!(uppercase(s), s.to_ascii_uppercase(), "{s:?}");
        assert_eq!(without_leading(s, '/'), s.trim_start_matches('/'), "{s:?}");
        assert_eq!(without_trailing(s, '/'), s.trim_end_matches('/'), "{s:?}");
        assert_eq!(replaced(s, ':', "::"), s.replace(':', "::"), "{s:?}");
        assert_eq!(
            split_once(s, ':'),
            s.split_once(':').map(|(a, b)| (a.to_owned(), b.to_owned())),
            "{s:?}"
        );
        assert_eq!(parts(s, ','), s.split(',').collect::<Vec<_>>(), "{s:?}");
        for t in SAMPLES {
            assert_eq!(text_eq(s, t), s == t);
            assert_eq!(includes(s, t), s.contains(t), "{s:?} {t:?}");
            assert_eq!(begins(s, t), s.starts_with(t), "{s:?} {t:?}");
            assert_eq!(finishes(s, t), s.ends_with(t), "{s:?} {t:?}");
            assert_eq!(eq_ignoring_case(s, t), s.eq_ignore_ascii_case(t));
        }
        assert!(eq_ignoring_case(s, &s.to_ascii_uppercase()));
    }
}

#[test]
fn lists_are_joined() {
    assert_eq!(joined(&[], ", "), "");
    assert_eq!(joined(&["a".into()], ", "), "a");
    assert_eq!(joined(&["a".into(), String::new(), "b".into()], ", "), "a, , b");
}

#[test]
fn numbers_are_read_and_written() {
    for n in [0_u64, 7, 10, 999, u64::MAX] {
        assert_eq!(decimal_text(n), n.to_string());
        assert_eq!(parse_unsigned(&n.to_string()), Some(n));
    }
    for s in ["", "+", "+7", "007", "-0", "1_0", "18446744073709551616", "99999999999999999999"] {
        assert_eq!(parse_unsigned(s), s.parse().ok(), "{s}");
    }
}
