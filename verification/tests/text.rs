use cli_tui::text::{
    chars_of, find, lines, matches_at, starts_with, trim, trim_start_matches, white_space,
};

fn chars(text: &str) -> Vec<char> {
    text.chars().collect()
}

#[test]
fn test_chars_of() {
    assert_eq!(chars_of(""), Vec::<char>::new());
    assert_eq!(chars_of("a-b"), vec!['a', '-', 'b']);
    assert_eq!(chars_of("né €"), vec!['n', 'é', ' ', '€']);
}

#[test]
fn test_lines_split_at_line_feeds() {
    assert_eq!(lines("a\nb\nc"), vec!["a", "b", "c"]);
    assert_eq!(lines("a\nb\n"), vec!["a", "b"]);
    assert_eq!(lines("a\n\nb"), vec!["a", "", "b"]);
    assert_eq!(lines("\n"), vec![""]);
    assert_eq!(lines(""), Vec::<&str>::new());
    assert_eq!(lines("one line"), vec!["one line"]);
}

#[test]
fn test_lines_drop_carriage_return_before_line_feed() {
    assert_eq!(lines("a\r\nb\r\n"), vec!["a", "b"]);
    assert_eq!(lines("a\rb\nc"), vec!["a\rb", "c"]);
    assert_eq!(lines("a\r\r\nb"), vec!["a\r", "b"]);
    assert_eq!(lines("a\nb\r"), vec!["a", "b\r"]);
    assert_eq!(lines("\r\n"), vec![""]);
}

#[test]
fn test_lines_agree_with_std() {
    let samples = [
        "",
        "\n",
        "\r",
        "\r\n",
        "\n\n",
        "a",
        "a\n",
        "a\r\n",
        "a\r",
        "\na",
        "a\n\r\nb\r\n\r\n",
        "Usage: x\n\nOptions:\n  -h, --help  Print help\n",
        "é\nü\r\n€",
    ];
    for sample in samples {
        let expected: Vec<&str> = sample.lines().collect();
        assert_eq!(lines(sample), expected, "{:?}", sample);
    }
}

#[test]
fn test_trim() {
    assert_eq!(trim("  Print help "), "Print help");
    assert_eq!(trim("Print help"), "Print help");
    assert_eq!(trim("   "), "");
    assert_eq!(trim(""), "");
    assert_eq!(trim("\t a b \n"), "a b");
    assert_eq!(trim("\u{a0}x\u{3000}"), "x");
    assert_eq!(trim(" é "), "é");
}

#[test]
fn test_trim_agrees_with_std() {
    let samples = ["", " ", "a", " a", "a ", " a b ", "\r\n a\u{2003}", "\u{200b}a\u{200b}", "_ _"];
    for sample in samples {
        assert_eq!(trim(sample), sample.trim(), "{:?}", sample);
    }
}

#[test]
fn test_white_space_agrees_with_std() {
    for code in 0..=0x10FFFFu32 {
        if let Some(c) = char::from_u32(code) {
            assert_eq!(white_space(c), c.is_whitespace(), "U+{:04X}", code);
        }
    }
}

#[test]
fn test_trim_start_matches() {
    assert_eq!(trim_start_matches("--help", '-'), "help");
    assert_eq!(trim_start_matches("-h", '-'), "h");
    assert_eq!(trim_start_matches("first-name", '-'), "first-name");
    assert_eq!(trim_start_matches("--first-name-", '-'), "first-name-");
    assert_eq!(trim_start_matches("---", '-'), "");
    assert_eq!(trim_start_matches("", '-'), "");
    for sample in ["--a", "a--", "-", "é-", "--é"] {
        assert_eq!(trim_start_matches(sample, '-'), sample.trim_start_matches('-'));
    }
}

#[test]
fn test_find_gives_the_leftmost_occurrence() {
    assert_eq!(find(&chars("abcabc"), &chars("bc")), Some(1));
    assert_eq!(find(&chars("abcabc"), &chars("abc")), Some(0));
    assert_eq!(find(&chars("abcabc"), &chars("c")), Some(2));
    assert_eq!(find(&chars("aaab"), &chars("aab")), Some(1));
    assert_eq!(find(&chars("abc"), &chars("abc")), Some(0));
    assert_eq!(find(&chars("xabc"), &chars("abc")), Some(1));
}

#[test]
fn test_find_without_occurrence() {
    assert_eq!(find(&chars("abc"), &chars("d")), None);
    assert_eq!(find(&chars("abc"), &chars("abcd")), None);
    assert_eq!(find(&chars(""), &chars("a")), None);
    assert_eq!(find(&chars("Option:"), &chars("Options:")), None);
}

#[test]
fn test_find_empty_pattern() {
    assert_eq!(find(&chars("abc"), &chars("")), Some(0));
    assert_eq!(find(&chars(""), &chars("")), Some(0));
}

#[test]
fn test_find_counts_characters() {
    assert_eq!(find(&chars("éé Options:"), &chars("Options:")), Some(3));
}

#[test]
fn test_matches_at() {
    let text = chars("Usage: x");
    assert!(matches_at(&text, &chars("Usage:"), 0));
    assert!(!matches_at(&text, &chars("Usage:"), 1));
    assert!(matches_at(&text, &chars("x"), 7));
    assert!(matches_at(&text, &chars(""), 8));
    assert!(!matches_at(&text, &chars(""), 9));
    assert!(!matches_at(&text, &chars("x"), 8));
    assert!(!matches_at(&text, &chars("x"), usize::MAX));
}

#[test]
fn test_starts_with() {
    assert!(starts_with(&chars("Usage: x"), &chars("Usage:")));
    assert!(starts_with(&chars("Usage:"), &chars("Usage:")));
    assert!(starts_with(&chars("Usage:"), &chars("")));
    assert!(!starts_with(&chars(" Usage:"), &chars("Usage:")));
    assert!(!starts_with(&chars("Usage"), &chars("Usage:")));
    assert!(!starts_with(&chars(""), &chars("Usage:")));
}
