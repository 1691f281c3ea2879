use earshot::text::{ends_with, is_white_space, starts_with, trim};

#[test]
fn white_space_is_what_unicode_says() {
    for c in '\0'..=char::MAX {
        assert_eq!(is_white_space(c), c.is_whitespace(), "{c:?}");
    }
}

#[test]
fn only_the_ends_are_trimmed() {
    for s in ["", " ", "a", " a", "a ", "\t a b \u{2003}", "\u{feff}x ", "é è\n"] {
        assert_eq!(trim(s), s.trim());
    }
    assert_eq!(trim("\r\n two words \u{85}"), "two words");
}

#[test]
fn beginnings_and_ends_are_compared_by_character() {
    for s in ["", "e", "encoder", "encoder.onnx", "xencoder", ".onnx", "éncoder.onnx", "encoderé"] {
        for t in ["", "encoder", ".onnx", "é"] {
            assert_eq!(starts_with(s, t), s.starts_with(t), "{s} {t}");
            assert_eq!(ends_with(s, t), s.ends_with(t), "{s} {t}");
        }
    }
}
