use mechatyper::text::{char_is_whitespace, chars_of, split_lines, string_of};

fn lines_as_strings(text: &str) -> Vec<String> {
    split_lines(&chars_of(text)).iter().map(string_of).collect()
}

#[test]
fn whitespace_is_the_unicode_property() {
    let mut code: u32 = 0;
    while code <= 0x10FFFF {
        if let Some(c) = char::from_u32(code) {
            assert_eq!(char_is_whitespace(c), c.is_whitespace(), "U+{:04X}", code);
        }
        code += 1;
    }
}

#[test]
fn characters_round_trip() {
    let text = "a\u{e9}\u{4e2d}\u{1F600} z\n";
    let chars = chars_of(text);
    assert_eq!(chars, text.chars().collect::<Vec<char>>());
    assert_eq!(string_of(&chars), text);
    assert_eq!(string_of(&Vec::new()), "");
}

#[test]
fn lines_are_split_as_by_std() {
    let texts = [
        "",
        "\n",
        "a",
        "a\n",
        "a\nb",
        "a\n\n",
        "a\n\n\nb\n",
        "a\r\nb\r\n",
        "foo\nbar\n\r\nbaz\r",
        "\r",
        "\r\n",
        "a\r\r\n",
        "x\ry\n",
        "  indented\n\t\ttabs\n",
    ];
    for text in texts {
        let expected: Vec<String> = text.lines().map(|line| line.to_string()).collect();
        assert_eq!(lines_as_strings(text), expected, "{:?}", text);
    }
}

#[test]
fn a_final_line_feed_adds_no_line() {
    assert_eq!(lines_as_strings("a\nb\n"), vec!["a".to_string(), "b".to_string()]);
    assert_eq!(lines_as_strings("a\nb"), vec!["a".to_string(), "b".to_string()]);
    assert_eq!(lines_as_strings(""), Vec::<String>::new());
    assert_eq!(lines_as_strings("\n"), vec!["".to_string()]);
}

#[test]
fn a_carriage_return_stays_on_the_last_line_without_line_feed() {
    assert_eq!(lines_as_strings("a\r\nb\r"), vec!["a".to_string(), "b\r".to_string()]);
}
