use network_discover::text::{blank, decimal_text, lines, parse_u16, same, words};

#[test]
fn blank_is_white_space() {
    for code in 0..=0x10ffffu32 {
        if let Some(c) = char::from_u32(code) {
            assert_eq!(blank(c), c.is_whitespace(), "{:x}", code);
        }
    }
}

#[test]
fn words_are_split_at_white_space() {
    for text in [
        "",
        " ",
        "a",
        " a  b\tc ",
        "default via 192.168.1.1 dev eth0",
        "x\u{2003}y\u{3000}",
        "\u{200b}not\u{200b}blank",
        "1  *\r",
    ] {
        let expected: Vec<&str> = text.trim().split_whitespace().collect();
        assert_eq!(words(text), expected);
    }
    assert_eq!(words(" a  b\tc "), vec!["a", "b", "c"]);
}

#[test]
fn lines_are_split_at_line_ends() {
    for text in [
        "", "\n", "\r\n", "a", "a\n", "a\r", "a\r\n", "a\r\r\n", "a\nb", "a\n\nb\n", "\n\r", "a\rb\n",
        "\u{e4}\n\u{20ac}\r\n",
    ] {
        let expected: Vec<&str> = text.lines().collect();
        assert_eq!(lines(text), expected);
    }
    assert_eq!(lines("a\r\nb\n"), vec!["a", "b"]);
    assert_eq!(lines("a\nb\r"), vec!["a", "b\r"]);
}

#[test]
fn numbers_are_read() {
    for text in [
        "", "+", "-", "0", "7", "007", "+12", "-1", "-0", "65535", "65536", "99999999999999999999",
        "00000000000000000000080", "1a", "a1", " 1", "1 ", "1_000", "++1", "\u{661}", "none", "*",
    ] {
        assert_eq!(parse_u16(text), text.parse::<u16>().ok(), "{}", text);
    }
    assert_eq!(parse_u16("8080"), Some(8080));
    assert_eq!(parse_u16("+443"), Some(443));
    assert_eq!(parse_u16("65536"), None);
}

#[test]
fn numbers_are_written() {
    for n in 0..=u16::MAX {
        assert_eq!(decimal_text(n), n.to_string());
    }
    assert_eq!(decimal_text(15), "15");
    assert_eq!(parse_u16(decimal_text(40960).as_str()), Some(40960));
}

#[test]
fn texts_are_compared() {
    assert!(same("", ""));
    assert!(same("port", "port"));
    assert!(!same("port", "ports"));
    assert!(!same("port", "Port"));
}
