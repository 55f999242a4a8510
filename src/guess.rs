//! Classifying a guess against the solution, and the board of guesses.

use vstd::prelude::*;

use crate::{Letter, LetterState};

verus! {

/// Number of attempts, and so of rows on the board.
pub const MAX_TRIES: u8 = 6;

/// Why a guess could not be classified or recorded.
#[derive(Debug, Clone, Copy, PartialEq, Eq, Structural)]
pub enum GuessError {
    /// The guess and the solution differ in length.
    LengthMismatch,
    /// The attempt number is not one of the board's rows (1 to 6).
    OutOfRange,
}

/// Positions `k < n` where the solution holds `c` and the guess does not
/// match the solution: the occurrences of `c` left over after the exact
/// matches have been taken out.
pub open spec fn count_spare(cand: Seq<char>, sol: Seq<char>, c: char, n: int) -> nat
    decreases n,
{
    if n <= 0 {
        0
    } else {
        count_spare(cand, sol, c, n - 1) + if sol[n - 1] == c && cand[n - 1] != sol[n - 1] {
            1nat
        } else {
            0nat
        }
    }
}

/// Positions `k < n` where the guess holds `c` without matching the solution.
pub open spec fn count_pending(cand: Seq<char>, sol: Seq<char>, c: char, n: int) -> nat
    decreases n,
{
    if n <= 0 {
        0
    } else {
        count_pending(cand, sol, c, n - 1) + if cand[n - 1] == c && cand[n - 1] != sol[n - 1] {
            1nat
        } else {
            0nat
        }
    }
}

/// The class of position `i` of `cand` against `sol`.
///
/// An exact match is `Correct`. Otherwise the letter draws on a tally of the
/// solution's letters that were not matched exactly: the letter is `Exists`
/// while the earlier non-matching occurrences of it in the guess have not used
/// the tally up, and `Incorrect` after that.
pub open spec fn class_at(cand: Seq<char>, sol: Seq<char>, i: int) -> LetterState {
    if cand[i] == sol[i] {
        LetterState::Correct
    } else if count_pending(cand, sol, cand[i], i) < count_spare(cand, sol, cand[i], sol.len() as int) {
        LetterState::Exists
    } else {
        LetterState::Incorrect
    }
}

/// The classified row for the guess `cand` against the solution `sol`.
pub open spec fn guess_row(cand: Seq<char>, sol: Seq<char>) -> Seq<Letter> {
    Seq::new(cand.len(), |i: int| letter_at(cand, sol, i))
}

/// The classified letter at position `i`.
pub open spec fn letter_at(cand: Seq<char>, sol: Seq<char>, i: int) -> Letter {
    Letter { value: cand[i], status: class_at(cand, sol, i) }
}

/// Occurrences of `c` among the first `n` characters of `s`.
pub open spec fn count_char(s: Seq<char>, c: char, n: int) -> nat
    decreases n,
{
    if n <= 0 {
        0
    } else {
        count_char(s, c, n - 1) + if s[n - 1] == c {
            1nat
        } else {
            0nat
        }
    }
}

/// Is a letter marked as found, exactly or elsewhere?
pub open spec fn is_marked(l: Letter) -> bool {
    l.status == LetterState::Correct || l.status == LetterState::Exists
}

/// Letters among the first `n` of `row` that show `c` and are marked found.
pub open spec fn count_marked(row: Seq<Letter>, c: char, n: int) -> nat
    decreases n,
{
    if n <= 0 {
        0
    } else {
        count_marked(row, c, n - 1) + if row[n - 1].value == c && is_marked(row[n - 1]) {
            1nat
        } else {
            0nat
        }
    }
}

/// Is every letter of the row `Correct`?
pub open spec fn all_correct(row: Seq<Letter>) -> bool {
    forall|i: int| 0 <= i < row.len() ==> (#[trigger] row[i]).status == LetterState::Correct
}

/// Positions `k < n` where guess and solution both hold `c`.
pub open spec fn count_hits(cand: Seq<char>, sol: Seq<char>, c: char, n: int) -> nat
    decreases n,
{
    if n <= 0 {
        0
    } else {
        count_hits(cand, sol, c, n - 1) + if cand[n - 1] == c && sol[n - 1] == c {
            1nat
        } else {
            0nat
        }
    }
}

pub open spec fn min_nat(a: nat, b: nat) -> nat {
    if a <= b {
        a
    } else {
        b
    }
}

/// The occurrences of `c` in the solution are its exact matches plus its
/// leftover occurrences.
proof fn lemma_solution_split(cand: Seq<char>, sol: Seq<char>, c: char, n: int)
    requires
        cand.len() == sol.len(),
        0 <= n <= sol.len(),
    ensures
        count_char(sol, c, n) == count_hits(cand, sol, c, n) + count_spare(cand, sol, c, n),
    decreases n,
{
    if n > 0 {
        lemma_solution_split(cand, sol, c, n - 1);
    }
}

/// Among the first `n` letters of the row, those that show `c` and are found
/// are its exact matches, plus as many of the others as the tally allows.
proof fn lemma_marked_count(cand: Seq<char>, sol: Seq<char>, c: char, n: int)
    requires
        cand.len() == sol.len(),
        0 <= n <= cand.len(),
    ensures
        count_marked(guess_row(cand, sol), c, n) == count_hits(cand, sol, c, n) + min_nat(
            count_pending(cand, sol, c, n),
            count_spare(cand, sol, c, sol.len() as int),
        ),
    decreases n,
{
    if n > 0 {
        lemma_marked_count(cand, sol, c, n - 1);
        let row = guess_row(cand, sol);
        assert(row[n - 1].value == cand[n - 1]);
        assert(row[n - 1].status == class_at(cand, sol, n - 1));
    }
}

/// For every letter, the guess never has more letters marked found
/// (`Correct` or `Exists`) than the solution has occurrences of it.
pub proof fn lemma_marks_bounded_by_solution(cand: Seq<char>, sol: Seq<char>, c: char)
    requires
        cand.len() == sol.len(),
    ensures
        count_marked(guess_row(cand, sol), c, cand.len() as int) <= count_char(
            sol,
            c,
            sol.len() as int,
        ),
{
    lemma_marked_count(cand, sol, c, cand.len() as int);
    lemma_solution_split(cand, sol, c, sol.len() as int);
}

/// Classifying depends on the guess and the solution alone: guesses with
/// the same letters, against solutions with the same letters, give the same
/// row.
pub proof fn lemma_classification_pure(cand1: Seq<char>, sol1: Seq<char>, cand2: Seq<char>, sol2: Seq<char>)
    requires
        cand1 == cand2,
        sol1 == sol2,
    ensures
        guess_row(cand1, sol1) == guess_row(cand2, sol2),
{
}

/// A guess equal to the solution is `Correct` at every position.
pub proof fn lemma_exact_guess_all_correct(word: Seq<char>)
    ensures
        all_correct(guess_row(word, word)),
{
}

/// Copies the characters of `s` into a vector.
fn chars_of(s: &str) -> (r: Vec<char>)
    ensures
        r@ == s@,
{
    let n = s.unicode_len();
    let mut r: Vec<char> = Vec::new();
    let mut i: usize = 0;
    while i < n
        invariant
            n == s@.len(),
            i <= n,
            r@ == s@.subrange(0, i as int),
        decreases n - i,
    {
        r.push(s.get_char(i));
        i = i + 1;
    }
    assert(r@ =~= s@);
    r
}

/// Counts the leftover occurrences of `c` in the solution (see `count_spare`).
fn spare_count(cand: &Vec<char>, sol: &Vec<char>, c: char) -> (r: usize)
    requires
        cand@.len() == sol@.len(),
    ensures
        r == count_spare(cand@, sol@, c, sol@.len() as int),
{
    let mut r: usize = 0;
    let mut k: usize = 0;
    while k < sol.len()
        invariant
            cand@.len() == sol@.len(),
            k <= sol@.len(),
            r <= k,
            r == count_spare(cand@, sol@, c, k as int),
        decreases sol@.len() - k,
    {
        if sol[k] == c && cand[k] != sol[k] {
            r = r + 1;
        }
        k = k + 1;
    }
    r
}

/// Counts the non-matching occurrences of `c` in the guess before position `i`.
fn pending_count(cand: &Vec<char>, sol: &Vec<char>, c: char, i: usize) -> (r: usize)
    requires
        cand@.len() == sol@.len(),
        i <= cand@.len(),
    ensures
        r == count_pending(cand@, sol@, c, i as int),
{
    let mut r: usize = 0;
    let mut j: usize = 0;
    while j < i
        invariant
            cand@.len() == sol@.len(),
            i <= cand@.len(),
            j <= i,
            r <= j,
            r == count_pending(cand@, sol@, c, j as int),
        decreases i - j,
    {
        if cand[j] == c && cand[j] != sol[j] {
            r = r + 1;
        }
        j = j + 1;
    }
    r
}

/// Classifies each letter of `candidate` against `solution`.
///
/// Exact matches come first; then each remaining letter is `Exists` while the
/// solution still has an unmatched occurrence of it that no earlier letter of
/// the guess has claimed, and `Incorrect` otherwise. Guesses of another length
/// than the solution are rejected.
pub fn classify(candidate: &str, solution: &str) -> (r: Result<Vec<Letter>, GuessError>)
    ensures
        candidate@.len() != solution@.len() ==> r == Err::<Vec<Letter>, GuessError>(
            GuessError::LengthMismatch,
        ),
        candidate@.len() == solution@.len() ==> r is Ok,
        r is Ok ==> r->Ok_0@ == guess_row(candidate@, solution@),
        r is Ok ==> forall|c: char|
            count_marked(r->Ok_0@, c, candidate@.len() as int) <= count_char(
                solution@,
                c,
                solution@.len() as int,
            ),
        r is Ok && candidate@ == solution@ ==> all_correct(r->Ok_0@),
{
    let cand = chars_of(candidate);
    let sol = chars_of(solution);
    if cand.len() != sol.len() {
        return Err(GuessError::LengthMismatch);
    }
    let n = cand.len();
    let mut row: Vec<Letter> = Vec::new();
    let mut i: usize = 0;
    while i < n
        invariant
            n == cand@.len(),
            cand@.len() == sol@.len(),
            cand@ == candidate@,
            sol@ == solution@,
            i <= n,
            row@ == guess_row(cand@, sol@).subrange(0, i as int),
        decreases n - i,
    {
        let c = cand[i];
        let status = if c == sol[i] {
            LetterState::Correct
        } else if pending_count(&cand, &sol, c, i) < spare_count(&cand, &sol, c) {
            LetterState::Exists
        } else {
            LetterState::Incorrect
        };
        row.push(Letter::new(c, status));
        assert(row@ =~= guess_row(cand@, sol@).subrange(0, i + 1));
        i = i + 1;
    }
    assert(row@ =~= guess_row(cand@, sol@));
    proof {
        assert forall|c: char|
            count_marked(row@, c, n as int) <= count_char(solution@, c, n as int) by {
            lemma_marks_bounded_by_solution(candidate@, solution@, c);
        }
        lemma_exact_guess_all_correct(candidate@);
    }
    Ok(row)
}

/// Is `attempt` (counted from 1) one of the rows of the board?
pub open spec fn valid_attempt(attempt: u8) -> bool {
    1 <= attempt <= MAX_TRIES
}

/// Puts `row` on the board as attempt `attempt` (counted from 1).
///
/// Only the addressed row changes; it is overwritten whatever it held. An
/// attempt outside 1 to 6 is rejected and leaves the board as it was.
pub fn record(board: &mut [Vec<Letter>; 6], attempt: u8, row: Vec<Letter>) -> (r: Result<
    (),
    GuessError,
>)
    ensures
        valid_attempt(attempt) ==> r is Ok && final(board)@ == old(board)@.update(
            attempt as int - 1,
            row,
        ),
        !valid_attempt(attempt) ==> r == Err::<(), GuessError>(GuessError::OutOfRange)
            && final(board)@ == old(board)@,
        forall|k: int|
            0 <= k < 6 && k != attempt as int - 1 ==> #[trigger] final(board)@[k] == old(board)@[k],
{
    if attempt < 1 || attempt > MAX_TRIES {
        return Err(GuessError::OutOfRange);
    }
    let idx = (attempt - 1) as usize;
    board[idx] = row;
    assert(board@ =~= old(board)@.update(attempt as int - 1, row));
    Ok(())
}

/// Classifies `user_guess` against `solution` and records the row as attempt
/// `attempt` (counted from 1).
///
/// An attempt outside 1 to 6 gives `OutOfRange`; otherwise a guess of
/// another length than the solution gives `LengthMismatch`. On either error
/// the board is left as it was.
pub fn process_guess(
    user_guess: &str,
    guess_list: &mut [Vec<Letter>; 6],
    solution: &str,
    attempt: u8,
) -> (r: Result<(), GuessError>)
    ensures
        !valid_attempt(attempt) ==> r == Err::<(), GuessError>(GuessError::OutOfRange),
        valid_attempt(attempt) && user_guess@.len() != solution@.len() ==> r == Err::<
            (),
            GuessError,
        >(GuessError::LengthMismatch),
        r is Err ==> final(guess_list)@ == old(guess_list)@,
        valid_attempt(attempt) && user_guess@.len() == solution@.len() ==> r is Ok
            && final(guess_list)@[attempt as int - 1]@ == guess_row(user_guess@, solution@),
        forall|k: int|
            0 <= k < 6 && k != attempt as int - 1 ==> #[trigger] final(guess_list)@[k] == old(
                guess_list,
            )@[k],
{
    if attempt < 1 || attempt > MAX_TRIES {
        return Err(GuessError::OutOfRange);
    }
    match classify(user_guess, solution) {
        Ok(row) => record(guess_list, attempt, row),
        Err(e) => Err(e),
    }
}

/// Is every letter of the row `Correct`?
pub fn is_solved(row: &Vec<Letter>) -> (r: bool)
    ensures
        r == all_correct(row@),
{
    let mut i: usize = 0;
    while i < row.len()
        invariant
            i <= row@.len(),
            forall|j: int| 0 <= j < i ==> (#[trigger] row@[j]).status == LetterState::Correct,
        decreases row@.len() - i,
    {
        if row[i].status != LetterState::Correct {
            return false;
        }
        i = i + 1;
    }
    true
}

/// The blank letter of a cell that no guess has filled yet.
pub open spec fn blank_letter() -> Letter {
    Letter { value: ' ', status: LetterState::NotExists }
}

/// Is `row` a blank row of `n` cells?
pub open spec fn is_blank_row(row: Seq<Letter>, n: int) -> bool {
    row.len() == n && forall|j: int| 0 <= j < n ==> #[trigger] row[j] == blank_letter()
}

/// A blank row of `n` cells.
fn blank_row(n: usize) -> (r: Vec<Letter>)
    ensures
        is_blank_row(r@, n as int),
{
    let mut r: Vec<Letter> = Vec::new();
    let mut j: usize = 0;
    while j < n
        invariant
            j <= n,
            is_blank_row(r@, j as int),
        decreases n - j,
    {
        r.push(Letter::new(' ', LetterState::NotExists));
        j = j + 1;
    }
    r
}

/// A board for words of `word_len` letters with every cell blank.
pub fn new_board(word_len: usize) -> (r: [Vec<Letter>; 6])
    ensures
        forall|k: int| 0 <= k < 6 ==> is_blank_row((#[trigger] r@[k])@, word_len as int),
{
    [
        blank_row(word_len),
        blank_row(word_len),
        blank_row(word_len),
        blank_row(word_len),
        blank_row(word_len),
        blank_row(word_len),
    ]
}

/// Where the game stands after a guess.
#[derive(Debug, Clone, Copy, PartialEq, Eq, Structural)]
pub enum Outcome {
    /// The guess matched the solution.
    Won,
    /// The last attempt was used without a match.
    Lost,
    /// The player may guess again.
    Playing,
}

/// The outcome after the row of attempt `attempt` (counted from 1) was played.
pub open spec fn outcome_of(row: Seq<Letter>, attempt: u8) -> Outcome {
    if all_correct(row) {
        Outcome::Won
    } else if attempt >= MAX_TRIES {
        Outcome::Lost
    } else {
        Outcome::Playing
    }
}

/// Decides the game after the row of attempt `attempt` was played: won when
/// every letter is `Correct`, lost when that was the last attempt, and still
/// going otherwise.
pub fn judge(row: &Vec<Letter>, attempt: u8) -> (r: Outcome)
    ensures
        r == outcome_of(row@, attempt),
{
    if is_solved(row) {
        Outcome::Won
    } else if attempt >= MAX_TRIES {
        Outcome::Lost
    } else {
        Outcome::Playing
    }
}

} // verus!
