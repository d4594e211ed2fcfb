use karaoke_core::chars::char_is_whitespace;
use karaoke_core::chars::chars_of;
use karaoke_core::chars::find_char;
use karaoke_core::chars::first_word_length;
use karaoke_core::chars::lowered;
use karaoke_core::chars::spells;
use karaoke_core::chars::split_lines;
use karaoke_core::chars::split_words;
use karaoke_core::chars::string_of;
use karaoke_core::chars::trim;
use karaoke_core::chars::trim_end;
use karaoke_core::chars::trim_start;

fn texts() -> Vec<&'static str> {
    vec![
        "",
        " ",
        "a",
        " a",
        "a ",
        "  a b  ",
        "\t\n x \r\n",
        "one two  three\tfour\nfive",
        "\u{A0}nbsp\u{A0}",
        "\u{2003}em\u{3000}",
        "\u{85}next\u{2028}line\u{2029}",
        "\u{200B}zero width is no space\u{200B}",
        "\u{1680}ogham\u{202F}narrow\u{205F}math",
        "a\nb",
        "a\r\nb",
        "a\rb",
        "a\n",
        "a\r\n",
        "a\r",
        "\n",
        "\r\n",
        "\r",
        "\n\n",
        "\r\n\r\n",
        "a\n\nb\n",
        "a\r\r\nb",
        "a\n\rb",
        "x\u{B}y\u{C}z",
    ]
}

fn as_strings(parts: Vec<Vec<char>>) -> Vec<String> {
    parts.iter().map(|p| p.iter().collect()).collect()
}

#[test]
fn white_space_is_what_the_standard_library_calls_so() {
    for code in 0u32..0x3100 {
        if let Some(c) = char::from_u32(code) {
            assert_eq!(char_is_whitespace(c), c.is_whitespace(), "U+{:04X}", code);
        }
    }
    assert!(!char_is_whitespace('\u{FEFF}'));
    assert!(!char_is_whitespace('\u{1F3A4}'));
}

#[test]
fn trimming_agrees_with_the_standard_library() {
    for text in texts() {
        let chars = chars_of(text);
        assert_eq!(string_of(trim_start(&chars)), text.trim_start());
        assert_eq!(string_of(trim_end(&chars)), text.trim_end());
        assert_eq!(string_of(trim(&chars)), text.trim());
    }
}

#[test]
fn lines_agree_with_the_standard_library() {
    for text in texts() {
        let expected: Vec<String> = text.lines().map(|l| l.to_string()).collect();
        assert_eq!(as_strings(split_lines(&chars_of(text))), expected, "{:?}", text);
    }
}

#[test]
fn words_agree_with_the_standard_library() {
    for text in texts() {
        let expected: Vec<String> = text.split_whitespace().map(|w| w.to_string()).collect();
        assert_eq!(as_strings(split_words(&chars_of(text))), expected, "{:?}", text);
    }
}

#[test]
fn first_match_is_found_or_the_end() {
    let chars = chars_of("a:b:c");
    assert_eq!(find_char(&chars, ':'), 1);
    assert_eq!(find_char(&chars, 'a'), 0);
    assert_eq!(find_char(&chars, 'c'), 4);
    assert_eq!(find_char(&chars, 'x'), 5);
    assert_eq!(find_char(&[], 'x'), 0);
    assert_eq!(first_word_length(&chars_of("ab cd")), 2);
    assert_eq!(first_word_length(&chars_of(" ab")), 0);
    assert_eq!(first_word_length(&chars_of("abc")), 3);
}

#[test]
fn texts_survive_the_way_to_characters_and_back() {
    for text in texts() {
        assert_eq!(string_of(&chars_of(text)), text);
    }
    assert!(spells(&chars_of("HEAD"), "HEAD"));
    assert!(!spells(&chars_of("HEAD"), "head"));
    assert!(!spells(&chars_of("HEA"), "HEAD"));
    assert_eq!(lowered(&chars_of("ÄbC ß İ")), "ÄbC ß İ".to_lowercase());
}
