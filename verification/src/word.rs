//! The target word of a session, with the count of each of its letters.

use crate::letters::{ascii_upper, code_count, count_upto, counts_letters, lemma_count_upto_bounds};
use std::collections::HashMap;
use vstd::prelude::*;
use vstd::std_specs::hash::group_hash_axioms;
use vstd::std_specs::iter::IteratorSpec;

verus! {

/// A word in upper case, and how often each letter occurs in it.
///
/// `chars` maps the code point of each letter of `word` to the number of its
/// occurrences; letters that do not occur have no entry.
#[derive(Debug, Default)]
pub struct Word {
    pub word: String,
    pub chars: HashMap<u32, usize>,
}

impl View for Word {
    type V = Seq<char>;

    /// The letters of the word.
    open spec fn view(&self) -> Seq<char> {
        self.word@
    }
}

impl Word {
    /// The table of counts is that of the word's own letters.
    pub open spec fn wf(&self) -> bool {
        counts_letters(self.chars@, self.word@)
    }

    /// The upper-case form of `word`, with its letter counts.
    pub fn new(word: &str) -> (target: Word)
        ensures
            target@ == ascii_upper(word@),
            target.wf(),
    {
        let word = word.to_ascii_uppercase();
        Word { chars: count_chars(word.as_str()), word }
    }

    /// One word of `words`, drawn at random, in upper case.
    pub fn random_from_list(words: &[String]) -> (target: Word)
        requires
            words@.len() > 0,
        ensures
            exists|i: int| 0 <= i < words@.len() && target@ == ascii_upper(#[trigger] words@[i]@),
            target.wf(),
    {
        let idx = random_index(words.len());
        Word::new(words[idx].as_str())
    }
}

/// `fastrand::usize` on the range `..bound`: a number drawn from the
/// generator of the current thread.
///
/// Trusted: the number drawn is below `bound`. The call panics on an empty
/// range, so `bound` must be positive. Nothing is said of which number
/// comes: two calls may differ.
#[verifier::external_body]
fn random_index(bound: usize) -> (idx: usize)
    requires
        bound > 0,
    ensures
        idx < bound,
{
    fastrand::usize(..bound)
}

/// Counts the letters of `text`: a table from the code point of each letter
/// that occurs to the number of its occurrences.
pub fn count_chars(text: &str) -> (chars: HashMap<u32, usize>)
    ensures
        counts_letters(chars@, text@),
{
    broadcast use group_hash_axioms;

    let mut chars: HashMap<u32, usize> = HashMap::new();
    let len = text.unicode_len();
    let mut rest = text.chars();
    let mut idx: usize = 0;
    loop
        invariant_except_break
            idx <= len,
            rest.remaining() == text@.skip(idx as int),
        invariant
            len == text@.len(),
            forall|k: u32|
                #![trigger chars@.contains_key(k)]
                #![trigger count_upto(text@, idx as int, k)]
                {
                    &&& chars@.contains_key(k) <==> count_upto(text@, idx as int, k) > 0
                    &&& chars@.contains_key(k) ==> chars@[k] == count_upto(text@, idx as int, k)
                },
        ensures
            idx == len,
        decreases len - idx,
    {
        match rest.next() {
            None => {
                break ;
            },
            Some(letter) => {
                let code = letter as u32;
                let seen: usize = match chars.get(&code) {
                    Some(count) => *count,
                    None => 0,
                };
                proof {
                    lemma_count_upto_bounds(text@, idx as int, idx as int, code);
                }
                chars.insert(code, seen + 1);
                idx += 1;
            },
        }
    }
    chars
}

} // verus!
