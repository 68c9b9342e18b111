use wordle::dictionary::{contains_word, parse_word_list, upper_case_lines};

fn lines_as_the_standard_library_reads_them(text: &str) -> Vec<String> {
    text.lines().map(|line| line.to_ascii_uppercase()).collect()
}

fn texts() -> Vec<&'static str> {
    vec![
        "",
        "\n",
        "\r",
        "\r\n",
        "\n\n",
        "alley",
        "alley\n",
        "alley\r\n",
        "alley\r",
        "alley\ncrane",
        "alley\r\ncrane\r\n",
        "alley\n\ncrane\n",
        "alley\r\r\ncrane",
        "al\rley\ncrane",
        "\nalley",
        "\r\nalley\n\r",
        "speed\nlevel\nalley\ncrane\n",
        "Größe\näther\nzebra\nZEBRA\nzeb\n",
        "b\na\nB\nA\n\n ",
    ]
}

#[test]
fn upper_case_lines_splits_at_line_ends() {
    assert_eq!(upper_case_lines("alley\ncrane\n"), vec!["ALLEY", "CRANE"]);
    assert_eq!(upper_case_lines("alley\r\ncrane"), vec!["ALLEY", "CRANE"]);
    assert_eq!(upper_case_lines("alley\n\ncrane"), vec!["ALLEY", "", "CRANE"]);
    assert_eq!(upper_case_lines("alley\r"), vec!["ALLEY\r"]);
    assert_eq!(upper_case_lines("al\rley\r\r\n"), vec!["AL\rLEY\r"]);
    assert_eq!(upper_case_lines("\n"), vec![""]);
    assert_eq!(upper_case_lines(""), Vec::<String>::new());
}

#[test]
fn upper_case_lines_reads_lines_as_the_standard_library_does() {
    for text in texts() {
        assert_eq!(upper_case_lines(text), lines_as_the_standard_library_reads_them(text));
    }
}

#[test]
fn parse_word_list_sorts_the_words() {
    assert_eq!(
        parse_word_list("speed\nlevel\nalley\ncrane\n"),
        vec!["ALLEY", "CRANE", "LEVEL", "SPEED"]
    );
    assert_eq!(parse_word_list("b\na"), vec!["A", "B"]);
    assert_eq!(parse_word_list("ab\na\nabc\n"), vec!["A", "AB", "ABC"]);
}

#[test]
fn parse_word_list_keeps_words_that_occur_twice() {
    assert_eq!(parse_word_list("level\nalley\nLEVEL\n"), vec!["ALLEY", "LEVEL", "LEVEL"]);
}

#[test]
fn parse_word_list_sorts_as_the_standard_library_does() {
    for text in texts() {
        let mut expected = lines_as_the_standard_library_reads_them(text);
        expected.sort();
        assert_eq!(parse_word_list(text), expected);
    }
}

#[test]
fn contains_word_finds_whole_words_only() {
    let words = parse_word_list("speed\nlevel\nalley\n");
    assert!(contains_word(&words, &"ALLEY".to_string()));
    assert!(contains_word(&words, &"SPEED".to_string()));
    assert!(!contains_word(&words, &"alley".to_string()));
    assert!(!contains_word(&words, &"ALLE".to_string()));
    assert!(!contains_word(&words, &"ALLEYS".to_string()));
    assert!(!contains_word(&words, &"".to_string()));
    assert!(!contains_word(&[], &"ALLEY".to_string()));
}
