use ciel_build::numeral::{push_decimal, push_signed};
use ciel_build::text::{chars_of, split_lines, starts_with, trim, whitespace};
use std::io::BufRead;

#[test]
fn whitespace_is_what_std_calls_whitespace() {
    for code in 0u32..=0x10FFFF {
        if let Some(c) = char::from_u32(code) {
            assert_eq!(whitespace(c), c.is_whitespace(), "U+{:04X}", code);
        }
    }
}

#[test]
fn trim_agrees_with_std() {
    let samples = [
        "",
        " ",
        "a",
        "  a  ",
        "\t a b \n",
        "\u{3000}wide\u{2003}",
        " \u{85}\u{a0}x y\u{1680}\u{2028}\u{2029}\u{202f}\u{205f}",
        "no-space",
        "   ",
        "\u{200b}zero-width stays\u{200b}",
        " #comment",
        "groups/base   ",
    ];
    for sample in samples {
        assert_eq!(trim(sample), sample.trim());
    }
}

#[test]
fn trim_examples() {
    assert_eq!(trim("  a b  "), "a b");
    assert_eq!(trim("\t\r\n"), "");
    assert_eq!(trim("x"), "x");
}

#[test]
fn split_lines_agrees_with_a_buffered_reader() {
    let samples = [
        "",
        "\n",
        "a",
        "a\n",
        "a\nb",
        "a\r\nb\r\n",
        "a\r",
        "a\r\r\n",
        "\r\n",
        "\n\n",
        "a\n\nb\n",
        "#c\n  x  \ngroups/g\n",
        "last\r",
        "\r",
        "é\nü\r\n\u{3000}",
    ];
    for sample in samples {
        let expected: Vec<String> = sample.as_bytes().lines().map(|l| l.unwrap()).collect();
        assert_eq!(split_lines(sample), expected, "{:?}", sample);
    }
}

#[test]
fn split_lines_examples() {
    assert_eq!(split_lines("a\nb\n"), vec!["a", "b"]);
    assert_eq!(split_lines("a\n\nb"), vec!["a", "", "b"]);
    assert_eq!(split_lines("a\r\nb\r"), vec!["a", "b\r"]);
    assert_eq!(split_lines(""), Vec::<String>::new());
    assert_eq!(split_lines("\n"), vec![""]);
}

#[test]
fn starts_with_agrees_with_std() {
    let pairs = [
        ("", ""),
        ("a", ""),
        ("", "a"),
        ("groups/x", "groups/"),
        ("groups", "groups/"),
        ("Groups/x", "groups/"),
        ("OUTPUT-foo", "OUTPUT-"),
        ("output-foo", "OUTPUT-"),
        ("äb", "ä"),
    ];
    for (text, prefix) in pairs {
        assert_eq!(starts_with(text, prefix), text.starts_with(prefix), "{:?} {:?}", text, prefix);
    }
}

#[test]
fn chars_of_keeps_every_character() {
    assert_eq!(chars_of("aé\u{3000}z"), vec!['a', 'é', '\u{3000}', 'z']);
    assert_eq!(chars_of(""), Vec::<char>::new());
}

#[test]
fn push_decimal_agrees_with_std_formatting() {
    let samples: [u64; 9] = [0, 1, 9, 10, 11, 99, 100, 12345, u64::MAX];
    for n in samples {
        let mut text = String::from("n=");
        push_decimal(&mut text, n);
        assert_eq!(text, format!("n={}", n));
    }
}

#[test]
fn push_signed_agrees_with_std_formatting() {
    let samples: [i64; 8] = [0, 1, -1, 10, -10, 127, i64::MAX, i64::MIN];
    for n in samples {
        let mut text = String::new();
        push_signed(&mut text, n);
        assert_eq!(text, format!("{}", n));
    }
}
