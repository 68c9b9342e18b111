use std::collections::HashMap;
use wordle::word::{count_chars, Word};

fn counts(pairs: &[(char, usize)]) -> HashMap<u32, usize> {
    pairs.iter().map(|(letter, count)| (*letter as u32, *count)).collect()
}

#[test]
fn count_chars_counts_each_letter() {
    assert_eq!(count_chars("ALLEY"), counts(&[('A', 1), ('L', 2), ('E', 1), ('Y', 1)]));
    assert_eq!(count_chars("SPEED"), counts(&[('S', 1), ('P', 1), ('E', 2), ('D', 1)]));
}

#[test]
fn count_chars_of_nothing_is_empty() {
    assert!(count_chars("").is_empty());
}

#[test]
fn count_chars_tells_cases_and_other_characters_apart() {
    assert_eq!(count_chars("aA a"), counts(&[('a', 2), ('A', 1), (' ', 1)]));
    assert_eq!(count_chars("ÄÄß"), counts(&[('Ä', 2), ('ß', 1)]));
}

#[test]
fn count_chars_of_one_letter_many_times() {
    assert_eq!(count_chars("EEEEE"), counts(&[('E', 5)]));
}

#[test]
fn word_new_is_in_upper_case() {
    let word = Word::new("alley");
    assert_eq!(word.word, "ALLEY");
    assert_eq!(word.chars, counts(&[('A', 1), ('L', 2), ('E', 1), ('Y', 1)]));
}

#[test]
fn word_new_keeps_what_is_not_an_ascii_letter() {
    let word = Word::new("Grüße 1");
    assert_eq!(word.word, "GRüßE 1");
    assert_eq!(word.chars.get(&('ü' as u32)), Some(&1));
    assert_eq!(word.chars.get(&('g' as u32)), None);
}

#[test]
fn random_from_list_of_one_word_is_that_word() {
    let words = vec!["crane".to_string()];
    for _ in 0..20 {
        let word = Word::random_from_list(&words);
        assert_eq!(word.word, "CRANE");
        assert_eq!(word.chars, count_chars("CRANE"));
    }
}

#[test]
fn random_from_list_draws_from_the_list() {
    let words = vec!["alley".to_string(), "LEVEL".to_string(), "Speed".to_string()];
    for _ in 0..200 {
        let word = Word::random_from_list(&words);
        assert!(["ALLEY", "LEVEL", "SPEED"].contains(&word.word.as_str()));
        assert_eq!(word.chars, count_chars(&word.word));
    }
}

#[test]
fn random_from_list_reaches_every_word() {
    let words = vec!["AAAAA".to_string(), "BBBBB".to_string()];
    let mut seen = [false, false];
    for _ in 0..2000 {
        let word = Word::random_from_list(&words);
        seen[if word.word == "AAAAA" { 0 } else { 1 }] = true;
    }
    assert!(seen[0] && seen[1]);
}
