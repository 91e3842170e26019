use iyes_cli::line::{is_blank_char, is_separator_char};
use iyes_cli::{parse_line, split_line};

fn strings(words: &[&str]) -> Vec<String> {
    words.iter().map(|w| w.to_string()).collect()
}

#[test]
fn splits_on_single_spaces() {
    assert_eq!(split_line("spawn 1 2"), strings(&["spawn", "1", "2"]));
}

#[test]
fn empty_line_has_no_words() {
    assert_eq!(split_line(""), Vec::<String>::new());
}

#[test]
fn line_of_spaces_has_no_words() {
    assert_eq!(split_line("   "), Vec::<String>::new());
}

#[test]
fn runs_of_separators_count_once() {
    assert_eq!(split_line("  spawn \t 1\r\n\x0C2  "), strings(&["spawn", "1", "2"]));
}

#[test]
fn single_word() {
    assert_eq!(split_line("help"), strings(&["help"]));
    assert_eq!(split_line("\thelp\n"), strings(&["help"]));
}

#[test]
fn blank_characters_that_are_no_separators_are_trimmed_at_the_ends_only() {
    assert_eq!(split_line("\u{A0}spawn 1\u{3000}"), strings(&["spawn", "1"]));
    assert_eq!(split_line("\u{B} \u{2003}help \u{85}\u{B}"), strings(&["help"]));
    assert_eq!(split_line("a\u{A0}b c"), strings(&["a\u{A0}b", "c"]));
    assert_eq!(split_line("a \u{B} b"), strings(&["a", "\u{B}", "b"]));
    assert_eq!(split_line("\u{A0}\u{2028}\u{B}"), Vec::<String>::new());
}

#[test]
fn words_keep_characters_outside_ascii() {
    assert_eq!(split_line("grüße wörld ✓"), strings(&["grüße", "wörld", "✓"]));
    assert_eq!(split_line("\u{200B}x"), strings(&["\u{200B}x"]));
}

#[test]
fn split_line_agrees_with_trim_and_split_ascii_whitespace() {
    let lines = [
        "",
        " ",
        "a",
        " a",
        "a ",
        "a b",
        "a  b",
        "\ta\tb\t",
        "spawn 1.5 -2",
        "\u{A0}a\u{A0}",
        "a\u{A0} b",
        "\u{B}a\u{B}b\u{B}",
        "\u{1680}x\u{180E}y \u{205F}",
        "\u{2000}\u{200A}z\u{202F}",
        "\u{2029} multiple   words here \u{2028}",
        "\u{1C}a\u{1F}",
        "x\u{0}y",
        "quoted \"two words\"",
    ];
    for line in lines {
        let expected: Vec<String> =
            line.trim().split_ascii_whitespace().map(|w| w.to_string()).collect();
        assert_eq!(split_line(line), expected, "line {:?}", line);
    }
}

#[test]
fn parse_line_separates_name_and_arguments() {
    let parsed = parse_line("spawn 10 20").unwrap();
    assert_eq!(parsed.name, "spawn");
    assert_eq!(parsed.args, strings(&["10", "20"]));
}

#[test]
fn parse_line_without_arguments() {
    let parsed = parse_line("  despawn  ").unwrap();
    assert_eq!(parsed.name, "despawn");
    assert!(parsed.args.is_empty());
}

#[test]
fn parse_line_of_a_blank_line_is_none() {
    assert!(parse_line("").is_none());
    assert!(parse_line("   ").is_none());
    assert!(parse_line("\t\r\n").is_none());
    assert!(parse_line("\u{A0}").is_none());
}

#[test]
fn there_is_no_quoting() {
    let parsed = parse_line("say \"hello world\"").unwrap();
    assert_eq!(parsed.name, "say");
    assert_eq!(parsed.args, strings(&["\"hello", "world\""]));
}

#[test]
fn blank_characters_are_those_of_unicode_white_space() {
    for code in 0..=0x10FFFFu32 {
        if let Some(c) = char::from_u32(code) {
            assert_eq!(is_blank_char(c), c.is_whitespace(), "U+{:04X}", code);
        }
    }
}

#[test]
fn separators_are_the_ascii_whitespace() {
    for code in 0..=0x10FFFFu32 {
        if let Some(c) = char::from_u32(code) {
            assert_eq!(is_separator_char(c), c.is_ascii_whitespace(), "U+{:04X}", code);
        }
    }
    assert!(is_separator_char(' '));
    assert!(is_separator_char('\t'));
    assert!(is_separator_char('\n'));
    assert!(is_separator_char('\x0C'));
    assert!(is_separator_char('\r'));
    assert!(!is_separator_char('\x0B'));
}

#[test]
fn every_character_alone_and_between_words() {
    for code in 0..0x3100u32 {
        if let Some(c) = char::from_u32(code) {
            let alone = c.to_string();
            let expected: Vec<String> =
                alone.trim().split_ascii_whitespace().map(|w| w.to_string()).collect();
            assert_eq!(split_line(&alone), expected, "U+{:04X} alone", code);
            let between = format!("{}a{}b{}", c, c, c);
            let expected: Vec<String> =
                between.trim().split_ascii_whitespace().map(|w| w.to_string()).collect();
            assert_eq!(split_line(&between), expected, "U+{:04X} between", code);
        }
    }
}
