use org_readwise::text::{
    append_text, chars_of, ends_with, find_char, find_from, is_whitespace, join, matches_at, parse_u64,
    push_decimal,
    same_text, slice_of, split_lines, starts_with, to_text, trim,
};

fn chars(s: &str) -> Vec<char> {
    s.chars().collect()
}

fn lines(s: &str) -> Vec<String> {
    split_lines(&chars(s)).iter().map(|row| row.iter().collect()).collect()
}

#[test]
fn chars_and_string_round_trip() {
    let text = "a\u{e9}\u{4e2d}\u{1f600} z";
    assert_eq!(chars_of(text), chars(text));
    assert_eq!(to_text(&chars(text)), text);
    assert_eq!(to_text(&Vec::new()), "");
}

#[test]
fn same_text_compares_every_character() {
    assert!(same_text("archive", "archive"));
    assert!(!same_text("archive", "archivE"));
    assert!(!same_text("archive", "archiv"));
    assert!(same_text("", ""));
}

#[test]
fn whitespace_is_what_std_calls_whitespace() {
    let mut code: u32 = 0;
    while code <= 0x10ffff {
        if let Some(c) = char::from_u32(code) {
            assert_eq!(is_whitespace(c), c.is_whitespace(), "U+{:04X}", code);
        }
        code += 1;
    }
}

#[test]
fn trim_is_what_std_trims() {
    for text in [
        "",
        " ",
        "x",
        "  x  ",
        "\t\r\n x y \u{a0}\u{3000}",
        "\u{2003}* readwise:highlights\u{2028}",
        "a  b",
        " \u{200b} ",
    ] {
        assert_eq!(to_text(&trim(&chars(text))), text.trim(), "{:?}", text);
    }
}

#[test]
fn lines_are_what_std_calls_lines() {
    for text in [
        "",
        "\n",
        "a",
        "a\n",
        "a\nb",
        "a\n\nb\n",
        "a\r\nb\r\n",
        "a\rb\n",
        "tail\r",
        "\r\n",
        "\n\n",
        "x\r\r\ny",
        "foo\nbar\n\r\nbaz\r",
    ] {
        let expected: Vec<String> = text.lines().map(|l| l.to_string()).collect();
        assert_eq!(lines(text), expected, "{:?}", text);
    }
}

#[test]
fn lines_of_three_line_text() {
    assert_eq!(lines("one\ntwo\r\nthree"), vec!["one", "two", "three"]);
}

#[test]
fn join_puts_the_separator_between() {
    let rows = vec![chars("a"), chars(""), chars("bc")];
    assert_eq!(to_text(&join(&rows, &chars("\n"))), "a\n\nbc");
    assert_eq!(to_text(&join(&Vec::new(), &chars("\n"))), "");
    assert_eq!(to_text(&join(&vec![chars("only")], &chars(", "))), "only");
}

#[test]
fn find_from_gives_the_first_occurrence() {
    let text = chars("abcabcabc");
    assert_eq!(find_from(&text, &chars("bc"), 0), Some(1));
    assert_eq!(find_from(&text, &chars("bc"), 2), Some(4));
    assert_eq!(find_from(&text, &chars("bc"), 8), None);
    assert_eq!(find_from(&text, &chars("x"), 0), None);
    assert_eq!(find_from(&text, &chars("abcabcabcd"), 0), None);
    assert_eq!(find_from(&text, &chars(""), 3), Some(3));
    assert_eq!(find_from(&text, &chars(""), 9), Some(9));
    assert_eq!(find_from(&text, &chars(""), 10), None);
}

#[test]
fn matches_at_checks_the_place() {
    let text = chars("hello");
    assert!(matches_at(&text, &chars("ell"), 1));
    assert!(!matches_at(&text, &chars("ell"), 0));
    assert!(!matches_at(&text, &chars("lo"), 4));
    assert!(matches_at(&text, &chars(""), 5));
    assert!(!matches_at(&text, &chars(""), 6));
}

#[test]
fn prefixes_and_suffixes() {
    assert!(starts_with(&chars("https://x"), &chars("http")));
    assert!(!starts_with(&chars("htt"), &chars("http")));
    assert!(!starts_with(&chars("private://x"), &chars("http")));
    assert!(ends_with(&chars("news.example.com"), &chars("example.com")));
    assert!(!ends_with(&chars("example.org"), &chars("example.com")));
    assert!(ends_with(&chars("x"), &chars("")));
}

#[test]
fn find_char_and_slice() {
    let text = chars("50 seconds.");
    assert_eq!(find_char(&text, ' ', 0), 2);
    assert_eq!(find_char(&text, ' ', 3), 11);
    assert_eq!(find_char(&text, 's', 0), 3);
    assert_eq!(to_text(&slice_of(&text, 3, 10)), "seconds");
    assert_eq!(to_text(&slice_of(&text, 4, 4)), "");
}

#[test]
fn append_text_appends() {
    assert_eq!(append_text("@readwise_", "01abc"), "@readwise_01abc");
    assert_eq!(append_text("", ""), "");
}

#[test]
fn parse_u64_is_what_std_parses() {
    for text in [
        "",
        "0",
        "7",
        "50",
        "+50",
        "-50",
        "+",
        "++1",
        "0050",
        "5 0",
        "50.",
        "1e3",
        "18446744073709551615",
        "18446744073709551616",
        "+18446744073709551615",
        "99999999999999999999999",
        "\u{0661}",
        "12a",
    ] {
        assert_eq!(parse_u64(&chars(text)), text.parse::<u64>().ok(), "{:?}", text);
    }
}

#[test]
fn parse_u64_exact_values() {
    assert_eq!(parse_u64(&chars("50")), Some(50));
    assert_eq!(parse_u64(&chars("18446744073709551615")), Some(u64::MAX));
    assert_eq!(parse_u64(&chars("18446744073709551616")), None);
}

#[test]
fn push_decimal_writes_what_std_writes() {
    for n in [0u64, 1, 9, 10, 11, 99, 100, 429, 65535, 4294967295, u64::MAX] {
        let mut out = chars("n=");
        push_decimal(&mut out, n);
        assert_eq!(to_text(&out), format!("n={}", n));
        assert_eq!(parse_u64(&out[2..].to_vec()), Some(n));
    }
}
