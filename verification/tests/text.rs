use fixed_width::text::{is_blank_line, is_whitespace_char, split_on_char, trim_whitespace};

#[test]
fn whitespace_is_what_the_standard_library_calls_whitespace() {
    for code in 0..=0x10FFFFu32 {
        if let Some(c) = char::from_u32(code) {
            assert_eq!(is_whitespace_char(c), c.is_whitespace(), "U+{:04X}", code);
        }
    }
}

#[test]
fn common_whitespace_characters() {
    assert!(is_whitespace_char(' '));
    assert!(is_whitespace_char('\t'));
    assert!(is_whitespace_char('\n'));
    assert!(is_whitespace_char('\r'));
    assert!(is_whitespace_char('\u{a0}'));
    assert!(!is_whitespace_char('a'));
    assert!(!is_whitespace_char(','));
    assert!(!is_whitespace_char('\u{200b}'));
}

#[test]
fn trims_both_ends() {
    assert_eq!(trim_whitespace("  Smith  "), "Smith");
    assert_eq!(trim_whitespace("Smith"), "Smith");
    assert_eq!(trim_whitespace("\tSmith"), "Smith");
    assert_eq!(trim_whitespace("Smith\r"), "Smith");
}

#[test]
fn trim_keeps_inner_whitespace() {
    assert_eq!(trim_whitespace("  123 Main  St "), "123 Main  St");
}

#[test]
fn trim_of_blank_is_empty() {
    assert_eq!(trim_whitespace(""), "");
    assert_eq!(trim_whitespace(" "), "");
    assert_eq!(trim_whitespace(" \t \r\n"), "");
}

#[test]
fn trim_agrees_with_the_standard_library() {
    let samples = [
        "",
        " ",
        "a",
        " a",
        "a ",
        " a b ",
        "\u{3000}x\u{2003}",
        "\u{200b} x",
        "é ",
        "  日本語\t",
        "x\u{85}",
        "\n\n",
    ];
    for sample in samples {
        assert_eq!(trim_whitespace(sample), sample.trim(), "{:?}", sample);
    }
}

#[test]
fn blank_lines_are_recognised() {
    assert!(is_blank_line(""));
    assert!(is_blank_line(" "));
    assert!(is_blank_line("\t  \r"));
    assert!(is_blank_line("\u{a0}\u{3000}"));
    assert!(!is_blank_line("a"));
    assert!(!is_blank_line("  ,  "));
    assert!(!is_blank_line("   x"));
}

#[test]
fn blank_agrees_with_an_empty_trim() {
    let samples = ["", " ", "a", " a ", ",", " \t", "\u{200b}", "x y"];
    for sample in samples {
        assert_eq!(is_blank_line(sample), sample.trim().is_empty(), "{:?}", sample);
    }
}

#[test]
fn splits_at_every_separator() {
    assert_eq!(split_on_char("a,b,c", ','), vec!["a", "b", "c"]);
    assert_eq!(split_on_char("Smith,John", ','), vec!["Smith", "John"]);
}

#[test]
fn split_without_separator_gives_one_part() {
    assert_eq!(split_on_char("abc", ','), vec!["abc"]);
    assert_eq!(split_on_char("", ','), vec![""]);
}

#[test]
fn split_keeps_empty_parts() {
    assert_eq!(split_on_char(",", ','), vec!["", ""]);
    assert_eq!(split_on_char("a,,b", ','), vec!["a", "", "b"]);
    assert_eq!(split_on_char(",a,", ','), vec!["", "a", ""]);
    assert_eq!(split_on_char(",,,,,", ','), vec!["", "", "", "", "", ""]);
}

#[test]
fn split_does_not_trim() {
    assert_eq!(split_on_char(" a , b ", ','), vec![" a ", " b "]);
}

#[test]
fn split_agrees_with_the_standard_library() {
    let samples = [
        "",
        ",",
        "a",
        "a,b",
        ",a,,b,",
        "Smith,John,123 Main St,Springfield,IL,62701",
        "é,日本語,,x",
        "\"quoted, not special\",b",
    ];
    for sample in samples {
        let expected: Vec<&str> = sample.split(',').collect();
        assert_eq!(split_on_char(sample, ','), expected, "{:?}", sample);
    }
}

#[test]
fn joined_parts_give_the_line_back() {
    let samples = ["", ",", "a,b", ",a,,b,", "no separator", "é,日本語"];
    for sample in samples {
        assert_eq!(split_on_char(sample, ',').join(","), sample);
    }
}

#[test]
fn split_works_for_other_separators() {
    assert_eq!(split_on_char("a;b,c;d", ';'), vec!["a", "b,c", "d"]);
}
