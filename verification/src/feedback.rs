//! What a guess earns: the mark of each letter of a guess against a target.
//!
//! A letter is `Exact` where the target holds the same letter at the same
//! position. Each occurrence of a letter in the target can account for one
//! mark only: the exact matches take theirs first, whatever their position,
//! and what then remains of a letter goes to its other occurrences in the
//! guess, from left to right, as `Present`. Every other letter is `Absent`.

use crate::letters::{
    available, code_count, count_upto, counts_letters, lemma_code_injective,
    lemma_count_upto_bounds, lemma_occurs_iff_counted, occurrences,
};
use vstd::prelude::*;

verus! {

/// The mark of one cell.
#[derive(Clone, Copy, Debug, PartialEq, Eq, Structural)]
pub enum Feedback {
    /// Not compared with the target yet.
    Unmarked,
    /// The letter has no occurrence in the target left to account for it.
    Absent,
    /// The letter occurs in the target, at another position.
    Present,
    /// The letter stands at this position in the target.
    Exact,
}

/// The guess and the target hold the same letter at position `i`.
pub open spec fn is_exact(guess: Seq<char>, target: Seq<char>, i: int) -> bool {
    0 <= i < guess.len() && i < target.len() && guess[i] == target[i]
}

/// Number of positions below `i` at which the guess holds the letter with
/// code `k` and matches the target exactly.
pub open spec fn exact_upto(guess: Seq<char>, target: Seq<char>, i: int, k: u32) -> nat
    decreases i,
{
    if i <= 0 {
        0
    } else {
        exact_upto(guess, target, i - 1, k) + if guess[i - 1] as u32 == k && is_exact(
            guess,
            target,
            i - 1,
        ) {
            1nat
        } else {
            0nat
        }
    }
}

/// Number of exact matches of the letter with code `k` in the whole guess.
pub open spec fn exact_count(guess: Seq<char>, target: Seq<char>, k: u32) -> nat {
    exact_upto(guess, target, guess.len() as int, k)
}

/// The marks after the exact matches have been found: `Exact` where the
/// guess matches the target, `Absent` elsewhere.
pub open spec fn exact_marks(guess: Seq<char>, target: Seq<char>) -> Seq<Feedback> {
    Seq::new(
        guess.len(),
        |i: int|
            if is_exact(guess, target, i) {
                Feedback::Exact
            } else {
                Feedback::Absent
            },
    )
}

/// Number of positions below `i` at which the guess holds the letter with
/// code `k` without being marked `Exact`.
pub open spec fn misplaced_upto(guess: Seq<char>, marks: Seq<Feedback>, i: int, k: u32) -> nat
    decreases i,
{
    if i <= 0 {
        0
    } else {
        misplaced_upto(guess, marks, i - 1, k) + if guess[i - 1] as u32 == k && marks[i - 1]
            != Feedback::Exact {
            1nat
        } else {
            0nat
        }
    }
}

/// The mark of position `i` of `guess` against `target`.
///
/// A position that is not an exact match is `Present` exactly if the target
/// holds more occurrences of its letter than the guess has exact matches of
/// that letter, anywhere, and other occurrences of it to the left of `i`.
pub open spec fn feedback_at(guess: Seq<char>, target: Seq<char>, i: int) -> Feedback {
    let k = guess[i] as u32;
    if is_exact(guess, target, i) {
        Feedback::Exact
    } else if exact_count(guess, target, k) + misplaced_upto(
        guess,
        exact_marks(guess, target),
        i,
        k,
    ) < code_count(target, k) {
        Feedback::Present
    } else {
        Feedback::Absent
    }
}

/// The marks of all positions of `guess` against `target`.
pub open spec fn feedback(guess: Seq<char>, target: Seq<char>) -> Seq<Feedback> {
    Seq::new(guess.len(), |i: int| feedback_at(guess, target, i))
}

/// A table of counts after each exact match of `guess` has taken one
/// occurrence of its letter from it.
pub open spec fn after_exact(counts: Map<u32, usize>, guess: Seq<char>, target: Seq<char>) -> Map<
    u32,
    usize,
> {
    Map::new(
        |k: u32| counts.contains_key(k),
        |k: u32| (counts[k] - exact_count(guess, target, k)) as usize,
    )
}

/// The mark that the second pass gives position `i`, from the marks of the
/// first pass and the table of counts that it left.
///
/// An `Exact` mark stays. Any other position is `Present` if `counts` offers
/// more of its letter than the guess holds of it, not marked `Exact`, to the
/// left of `i`; else it is `Absent`.
pub open spec fn contained_mark(
    guess: Seq<char>,
    marks: Seq<Feedback>,
    counts: Map<u32, usize>,
    i: int,
) -> Feedback {
    let k = guess[i] as u32;
    if marks[i] == Feedback::Exact {
        Feedback::Exact
    } else if misplaced_upto(guess, marks, i, k) < available(counts, k) {
        Feedback::Present
    } else {
        Feedback::Absent
    }
}

/// What the second pass takes of the letter with code `k` from a table that
/// offers `offered` of it: one for each occurrence not marked `Exact`, as
/// long as there is one to take.
pub open spec fn taken(guess: Seq<char>, marks: Seq<Feedback>, i: int, k: u32, offered: nat) -> nat {
    if misplaced_upto(guess, marks, i, k) < offered {
        misplaced_upto(guess, marks, i, k)
    } else {
        offered
    }
}

/// A table of counts after the second pass has taken from it what it marked
/// `Present`.
pub open spec fn after_contained(
    counts: Map<u32, usize>,
    guess: Seq<char>,
    marks: Seq<Feedback>,
) -> Map<u32, usize> {
    Map::new(
        |k: u32| counts.contains_key(k),
        |k: u32| (counts[k] - taken(guess, marks, guess.len() as int, k, counts[k] as nat)) as usize,
    )
}

/// Number of positions below `i` at which the guess holds the letter with
/// code `k` and is marked `Exact` or `Present`.
pub open spec fn marked_upto(guess: Seq<char>, target: Seq<char>, i: int, k: u32) -> nat
    decreases i,
{
    if i <= 0 {
        0
    } else {
        marked_upto(guess, target, i - 1, k) + if guess[i - 1] as u32 == k && feedback_at(
            guess,
            target,
            i - 1,
        ) != Feedback::Absent {
            1nat
        } else {
            0nat
        }
    }
}

/// Exact matches grow with the positions counted.
pub proof fn lemma_exact_upto_grows(guess: Seq<char>, target: Seq<char>, i: int, j: int, k: u32)
    requires
        i <= j,
    ensures
        exact_upto(guess, target, i, k) <= exact_upto(guess, target, j, k),
    decreases j - i,
{
    if i < j {
        lemma_exact_upto_grows(guess, target, i, j - 1, k);
    }
}

/// Occurrences outside exact matches grow with the positions counted.
pub proof fn lemma_misplaced_upto_grows(
    guess: Seq<char>,
    marks: Seq<Feedback>,
    i: int,
    j: int,
    k: u32,
)
    requires
        i <= j,
    ensures
        misplaced_upto(guess, marks, i, k) <= misplaced_upto(guess, marks, j, k),
    decreases j - i,
{
    if i < j {
        lemma_misplaced_upto_grows(guess, marks, i, j - 1, k);
    }
}

/// Below `i`, the guess has no more exact matches of a letter than the
/// target holds of that letter below `i`.
proof fn lemma_exact_upto_within_target(guess: Seq<char>, target: Seq<char>, i: int, k: u32)
    requires
        0 <= i,
    ensures
        exact_upto(guess, target, i, k) <= count_upto(
            target,
            if i <= target.len() {
                i
            } else {
                target.len() as int
            },
            k,
        ),
    decreases i,
{
    if i > 0 {
        lemma_exact_upto_within_target(guess, target, i - 1, k);
    }
}

/// The guess has no more exact matches of a letter than the target holds of
/// that letter.
pub proof fn lemma_exact_within_target(guess: Seq<char>, target: Seq<char>, k: u32)
    ensures
        exact_count(guess, target, k) <= code_count(target, k),
{
    let n = guess.len() as int;
    let m = if n <= target.len() {
        n
    } else {
        target.len() as int
    };
    lemma_exact_upto_within_target(guess, target, n, k);
    lemma_count_upto_bounds(target, m, target.len() as int, k);
}

/// Counting the exact matches first and the other occurrences second, from
/// a table that holds the target's letter counts, gives the marks of the
/// guess.
pub proof fn lemma_two_passes_give_feedback(
    counts: Map<u32, usize>,
    guess: Seq<char>,
    target: Seq<char>,
    i: int,
)
    requires
        counts_letters(counts, target),
        0 <= i < guess.len(),
    ensures
        contained_mark(
            guess,
            exact_marks(guess, target),
            after_exact(counts, guess, target),
            i,
        ) == feedback_at(guess, target, i),
{
    let k = guess[i] as u32;
    lemma_exact_within_target(guess, target, k);
    assert(counts.contains_key(k) <==> code_count(target, k) > 0);
}

/// A guess that is the target itself is marked `Exact` at every position.
pub proof fn lemma_target_is_all_exact(target: Seq<char>)
    ensures
        feedback(target, target).len() == target.len(),
        forall|i: int| 0 <= i < target.len() ==> feedback(target, target)[i] == Feedback::Exact,
{
}

/// A guess that shares no letter with the target is marked `Absent` at
/// every position.
pub proof fn lemma_no_shared_letter_is_all_absent(guess: Seq<char>, target: Seq<char>)
    requires
        forall|i: int, j: int| 0 <= i < guess.len() && 0 <= j < target.len() ==> guess[i] != target[j],
    ensures
        feedback(guess, target).len() == guess.len(),
        forall|i: int| 0 <= i < guess.len() ==> feedback(guess, target)[i] == Feedback::Absent,
{
    assert forall|i: int| 0 <= i < guess.len() implies feedback(guess, target)[i]
        == Feedback::Absent by {
        lemma_occurs_iff_counted(target, guess[i]);
        if target.contains(guess[i]) {
            let j = choose|j: int| 0 <= j < target.len() && target[j] == guess[i];
            assert(guess[i] != target[j]);
        }
    }
}

/// Below `i`, the marks given to a letter are its exact matches and, of its
/// other occurrences, as many as the target has left for them.
proof fn lemma_marked_upto_split(guess: Seq<char>, target: Seq<char>, i: int, k: u32)
    requires
        0 <= i <= guess.len(),
    ensures
        marked_upto(guess, target, i, k) == exact_upto(guess, target, i, k) + taken(
            guess,
            exact_marks(guess, target),
            i,
            k,
            (code_count(target, k) - exact_count(guess, target, k)) as nat,
        ),
    decreases i,
{
    lemma_exact_within_target(guess, target, k);
    if i > 0 {
        lemma_marked_upto_split(guess, target, i - 1, k);
    }
}

/// No letter earns more marks than the target holds occurrences of it: the
/// positions of the guess that hold the letter and are marked `Exact` or
/// `Present` are at most as many as the letter's occurrences in the target.
pub proof fn lemma_marks_within_target(guess: Seq<char>, target: Seq<char>, c: char)
    ensures
        marked_upto(guess, target, guess.len() as int, c as u32) <= occurrences(target, c),
{
    let k = c as u32;
    lemma_exact_within_target(guess, target, k);
    lemma_marked_upto_split(guess, target, guess.len() as int, k);
}

/// An `Absent` letter has nothing left in the target: the marks given to
/// that letter in the guess are as many as its occurrences in the target.
pub proof fn lemma_absent_is_exhausted(guess: Seq<char>, target: Seq<char>, i: int)
    requires
        0 <= i < guess.len(),
        feedback_at(guess, target, i) == Feedback::Absent,
    ensures
        marked_upto(guess, target, guess.len() as int, guess[i] as u32) == code_count(
            target,
            guess[i] as u32,
        ),
{
    let k = guess[i] as u32;
    let n = guess.len() as int;
    lemma_exact_within_target(guess, target, k);
    lemma_marked_upto_split(guess, target, n, k);
    lemma_misplaced_upto_grows(guess, exact_marks(guess, target), i, n, k);
}

} // verus!
