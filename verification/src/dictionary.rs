//! The dictionary: the words that are accepted as guesses, and how a list
//! of words is read from a text that holds one word on each line.

use crate::letters::ascii_upper;
use vstd::prelude::*;
use vstd::std_specs::iter::IteratorSpec;

verus! {

/// The words of a dictionary as sequences of letters.
pub open spec fn words_view(words: Seq<String>) -> Seq<Seq<char>> {
    Seq::new(words.len(), |i: int| words[i]@)
}

/// The position of the first line feed in `s`, or the length of `s` if it
/// holds none.
pub open spec fn first_newline(s: Seq<char>) -> nat
    decreases s.len(),
{
    if s.len() == 0 || s[0] == '\n' {
        0
    } else {
        1 + first_newline(s.skip(1))
    }
}

/// A line without the carriage return that may end it.
pub open spec fn strip_cr(line: Seq<char>) -> Seq<char> {
    if line.len() > 0 && line.last() == '\r' {
        line.drop_last()
    } else {
        line
    }
}

/// The lines of a text.
///
/// A line ends with a line feed, or with a carriage return followed by a
/// line feed; neither belongs to the line. What follows the last line feed
/// is a line too, unless it is empty, and is taken as it is.
pub open spec fn lines_of(s: Seq<char>) -> Seq<Seq<char>>
    decreases s.len(),
{
    if s.len() == 0 {
        Seq::empty()
    } else {
        let n = first_newline(s) as int;
        if n >= s.len() {
            seq![s]
        } else {
            seq![strip_cr(s.take(n))] + lines_of(s.skip(n + 1))
        }
    }
}

/// `a` comes before `b`, or is `b`, in the order of a dictionary: letter by
/// letter, by the code of the first letter that differs, a word coming
/// before every word that it begins.
pub open spec fn lex_le(a: Seq<char>, b: Seq<char>) -> bool
    decreases a.len(),
{
    if a.len() == 0 {
        true
    } else if b.len() == 0 {
        false
    } else if a[0] == b[0] {
        lex_le(a.skip(1), b.skip(1))
    } else {
        (a[0] as u32) < (b[0] as u32)
    }
}

/// The words are in the order of a dictionary.
pub open spec fn sorted(words: Seq<Seq<char>>) -> bool {
    forall|i: int, j: int| 0 <= i <= j < words.len() ==> lex_le(words[i], words[j])
}

/// The words of a text that holds one word on each line: its lines in
/// upper case.
pub open spec fn upper_lines(s: Seq<char>) -> Seq<Seq<char>> {
    Seq::new(lines_of(s).len(), |i: int| ascii_upper(lines_of(s)[i]))
}

/// The first line feed of a text is at `n` if there is one at `n` and none
/// before; a text without a line feed has it at its end.
proof fn lemma_first_newline_at(s: Seq<char>, n: nat)
    requires
        n <= s.len(),
        forall|j: int| 0 <= j < n ==> s[j] != '\n',
        n < s.len() ==> s[n as int] == '\n',
    ensures
        first_newline(s) == n,
    decreases n,
{
    if n > 0 {
        lemma_first_newline_at(s.skip(1), (n - 1) as nat);
    }
}

/// `<[String]>::sort` of the standard library.
///
/// Trusted: the words afterwards are the words before, each as often as
/// before, in the order that the standard library gives strings: letter by
/// letter by code, as `lex_le` states it.
#[verifier::external_body]
fn sort_words(words: &mut Vec<String>)
    ensures
        sorted(words_view(final(words)@)),
        words_view(final(words)@).to_multiset() == words_view(old(words)@).to_multiset(),
{
    words.sort();
}

/// Whether the dictionary `words` holds `word`.
pub fn contains_word(words: &[String], word: &String) -> (found: bool)
    ensures
        found == words_view(words@).contains(word@),
{
    let mut idx: usize = 0;
    while idx < words.len()
        invariant
            idx <= words@.len(),
            forall|i: int| 0 <= i < idx ==> words_view(words@)[i] != word@,
        decreases words@.len() - idx,
    {
        if words[idx] == *word {
            assert(words_view(words@)[idx as int] == word@);
            return true;
        }
        idx += 1;
    }
    false
}

/// The lines of `text`, each in upper case, in the order of the text.
pub fn upper_case_lines(text: &str) -> (lines: Vec<String>)
    ensures
        words_view(lines@) == upper_lines(text@),
{
    let ghost s = text@;
    let mut lines: Vec<String> = Vec::new();
    let mut line = String::new();
    // A carriage return is held back until the next character shows
    // whether it ends the line.
    let mut held_cr = false;
    let len = text.unicode_len();
    let mut rest = text.chars();
    let ghost mut start: int = 0;
    let mut idx: usize = 0;
    loop
        invariant_except_break
            rest.remaining() == s.skip(idx as int),
        invariant
            len == s.len(),
            0 <= start <= idx <= len,
            forall|j: int| start <= j < idx ==> s[j] != '\n',
            !held_cr && line@.len() > 0 ==> line@.last() != '\r',
            line@ + (if held_cr {
                seq!['\r']
            } else {
                Seq::<char>::empty()
            }) == s.subrange(start, idx as int),
            words_view(lines@) + upper_lines(s.skip(start)) == upper_lines(s),
        ensures
            idx == len,
        decreases len - idx,
    {
        match rest.next() {
            None => {
                break ;
            },
            Some(c) => {
                if c == '\n' {
                    proof {
                        let tail = s.skip(start);
                        let n = idx - start;
                        lemma_first_newline_at(tail, n as nat);
                        assert(tail.take(n) =~= s.subrange(start, idx as int));
                        assert(strip_cr(tail.take(n)) =~= line@);
                        assert(tail.skip(n + 1) =~= s.skip(idx + 1));
                        assert(upper_lines(tail) =~= seq![ascii_upper(line@)] + upper_lines(
                            s.skip(idx + 1),
                        ));
                        assert(s.subrange(idx + 1, idx + 1) =~= Seq::<char>::empty());
                    }
                    let ghost done = words_view(lines@);
                    lines.push(line.to_ascii_uppercase());
                    assert(words_view(lines@) =~= done + seq![ascii_upper(line@)]);
                    line = String::new();
                    held_cr = false;
                    proof {
                        start = idx + 1;
                    }
                } else {
                    let ghost before = line@;
                    if held_cr {
                        line.push('\r');
                    }
                    if c == '\r' {
                        held_cr = true;
                    } else {
                        line.push(c);
                        held_cr = false;
                    }
                    assert(s.subrange(start, idx + 1) =~= s.subrange(start, idx as int).push(c));
                }
                idx += 1;
            },
        }
    }
    if held_cr {
        line.push('\r');
    }
    assert(line@ =~= s.skip(start));
    if !line.as_str().is_empty() {
        proof {
            lemma_first_newline_at(s.skip(start), (len - start) as nat);
            assert(upper_lines(s.skip(start)) =~= seq![ascii_upper(line@)]);
        }
        let ghost done = words_view(lines@);
        lines.push(line.to_ascii_uppercase());
        assert(words_view(lines@) =~= done + seq![ascii_upper(line@)]);
    } else {
        assert(upper_lines(s.skip(start)) =~= Seq::<Seq<char>>::empty());
        assert(words_view(lines@) + Seq::<Seq<char>>::empty() =~= words_view(lines@));
    }
    lines
}

/// Reads a dictionary from a text that holds one word on each line: the
/// lines of the text in upper case, in the order of a dictionary.
pub fn parse_word_list(text: &str) -> (words: Vec<String>)
    ensures
        sorted(words_view(words@)),
        words_view(words@).to_multiset() == upper_lines(text@).to_multiset(),
{
    let mut lines = upper_case_lines(text);
    sort_words(&mut lines);
    lines
}

} // verus!
