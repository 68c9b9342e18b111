//! Letters of a word: ASCII upper-casing, and counting how often a letter
//! occurs.
//!
//! A letter is counted under its code point, a `u32`, because that is the
//! key under which the hash maps of this crate hold it.

use vstd::prelude::*;

verus! {

/// The ASCII upper-case form of `c`: `'a'..='z'` map to `'A'..='Z'`, every
/// other character is left as it is.
pub open spec fn ascii_upper_char(c: char) -> char {
    if 'a' <= c && c <= 'z' {
        ((c as u8) - 32) as char
    } else {
        c
    }
}

/// `s` with each character in its ASCII upper-case form.
pub open spec fn ascii_upper(s: Seq<char>) -> Seq<char> {
    Seq::new(s.len(), |i: int| ascii_upper_char(s[i]))
}

/// Whether `c` is one of the 52 ASCII letters.
pub open spec fn is_ascii_letter(c: char) -> bool {
    ('a' <= c && c <= 'z') || ('A' <= c && c <= 'Z')
}

/// `char::to_ascii_uppercase` of the standard library.
///
/// Trusted: the result is the character's ASCII upper-case form, as
/// `ascii_upper_char` defines it.
pub assume_specification[ char::to_ascii_uppercase ](c: &char) -> (upper: char)
    ensures
        upper == ascii_upper_char(*c),
;

/// `str::to_ascii_uppercase` of the standard library.
///
/// Trusted: the result has the same length as `s` and holds, position by
/// position, the ASCII upper-case form of each character of `s`.
pub assume_specification[ str::to_ascii_uppercase ](s: &str) -> (upper: String)
    ensures
        upper@ == ascii_upper(s@),
;

/// `String::push` of the standard library.
///
/// Trusted: the string afterwards is the string before with `ch` appended.
pub assume_specification[ String::push ](s: &mut String, ch: char)
    ensures
        final(s)@ == old(s)@.push(ch),
;

/// Number of positions below `i` at which `s` holds the letter with code `k`.
pub open spec fn count_upto(s: Seq<char>, i: int, k: u32) -> nat
    decreases i,
{
    if i <= 0 {
        0
    } else {
        count_upto(s, i - 1, k) + if s[i - 1] as u32 == k {
            1nat
        } else {
            0nat
        }
    }
}

/// Number of times the letter with code `k` occurs in `s`.
pub open spec fn code_count(s: Seq<char>, k: u32) -> nat {
    count_upto(s, s.len() as int, k)
}

/// Number of times the letter `c` occurs in `s`.
pub open spec fn occurrences(s: Seq<char>, c: char) -> nat {
    code_count(s, c as u32)
}

/// What a table of counts still offers of the letter with code `k`: the
/// count it holds for `k`, or zero where it holds none.
pub open spec fn available(counts: Map<u32, usize>, k: u32) -> nat {
    if counts.contains_key(k) {
        counts[k] as nat
    } else {
        0
    }
}

/// `counts` is the table of letter counts of `s`: its keys are the codes of
/// the letters that occur in `s`, each with the number of its occurrences.
pub open spec fn counts_letters(counts: Map<u32, usize>, s: Seq<char>) -> bool {
    forall|k: u32|
        #![trigger counts.contains_key(k)]
        #![trigger code_count(s, k)]
        {
            &&& counts.contains_key(k) <==> code_count(s, k) > 0
            &&& counts.contains_key(k) ==> counts[k] == code_count(s, k)
        }
}

/// Two characters with the same code are the same character.
pub proof fn lemma_code_injective(a: char, b: char)
    requires
        a as u32 == b as u32,
    ensures
        a == b,
{
}

/// A count never exceeds the number of positions counted, and grows with it.
pub proof fn lemma_count_upto_bounds(s: Seq<char>, i: int, j: int, k: u32)
    requires
        0 <= i <= j,
    ensures
        count_upto(s, i, k) <= i,
        count_upto(s, i, k) <= count_upto(s, j, k),
    decreases j,
{
    if i > 0 {
        lemma_count_upto_bounds(s, i - 1, i - 1, k);
    }
    if i < j {
        lemma_count_upto_bounds(s, i, j - 1, k);
    }
}

/// Counting only reads the positions counted: two strings that agree below
/// `i` have the same counts below `i`.
pub proof fn lemma_count_upto_agrees(s: Seq<char>, t: Seq<char>, i: int, k: u32)
    requires
        0 <= i <= s.len(),
        i <= t.len(),
        forall|j: int| 0 <= j < i ==> s[j] == t[j],
    ensures
        count_upto(s, i, k) == count_upto(t, i, k),
    decreases i,
{
    if i > 0 {
        lemma_count_upto_agrees(s, t, i - 1, k);
    }
}

/// A letter occurs in a word exactly if its count there is positive.
pub proof fn lemma_occurs_iff_counted(s: Seq<char>, c: char)
    ensures
        s.contains(c) <==> occurrences(s, c) > 0,
{
    lemma_occurs_below(s, s.len() as int, c);
    if s.contains(c) {
        let j = choose|j: int| 0 <= j < s.len() && s[j] == c;
        assert(s[j] == c);
    }
}

/// Below `i`, the count of `c` is positive exactly if `c` stands at some
/// position below `i`.
proof fn lemma_occurs_below(s: Seq<char>, i: int, c: char)
    requires
        0 <= i <= s.len(),
    ensures
        count_upto(s, i, c as u32) > 0 <==> exists|j: int| 0 <= j < i && s[j] == c,
    decreases i,
{
    if i > 0 {
        lemma_occurs_below(s, i - 1, c);
        if count_upto(s, i, c as u32) > 0 {
            if s[i - 1] as u32 == c as u32 {
                lemma_code_injective(s[i - 1], c);
            } else {
                let j = choose|j: int| 0 <= j < i - 1 && s[j] == c;
                assert(0 <= j < i && s[j] == c);
            }
        }
        if exists|j: int| 0 <= j < i && s[j] == c {
            let j = choose|j: int| 0 <= j < i && s[j] == c;
            if j < i - 1 {
                assert(0 <= j < i - 1 && s[j] == c);
            }
        }
    }
}

/// The count of a letter is its multiplicity in the multiset of the word's
/// letters.
pub proof fn lemma_occurrences_is_multiplicity(s: Seq<char>, c: char)
    ensures
        occurrences(s, c) == s.to_multiset().count(c),
    decreases s.len(),
{
    broadcast use vstd::seq_lib::group_to_multiset_ensures;

    if s.len() == 0 {
        assert(s.to_multiset().len() == 0);
    } else {
        let init = s.drop_last();
        lemma_occurrences_is_multiplicity(init, c);
        assert(s =~= init.push(s.last()));
        lemma_count_upto_agrees(s, init, init.len() as int, c as u32);
        if s.last() as u32 == c as u32 {
            lemma_code_injective(s.last(), c);
        }
    }
}

} // verus!
