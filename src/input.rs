//! Reading the player's guess: which input lines are accepted, and the texts
//! shown around a guess.

use vstd::prelude::*;

use crate::display::{style_code, TermFormatter};
use crate::guess::Outcome;
use crate::words::contains_word;

verus! {

/// What a guess must look like: exactly five ASCII letters.
pub const GUESS_PATTERN: &'static str = "^[a-zA-Z]{5}$";

/// The prompt shown before each guess.
pub const GUESS_PROMPT: &'static str = "Enter a word guess:";

/// Is `t` exactly five ASCII letters?
pub open spec fn five_ascii_letters(t: Seq<char>) -> bool {
    t.len() == 5 && forall|i: int|
        0 <= i < 5 ==> ('a' <= #[trigger] t[i] <= 'z' || 'A' <= t[i] <= 'Z')
}

/// Whether the regular expression `pattern` matches somewhere in `text`.
pub uninterp spec fn regex_matches(pattern: Seq<char>, text: Seq<char>) -> bool;

/// `s` without leading and trailing white space.
pub uninterp spec fn trimmed(s: Seq<char>) -> Seq<char>;

/// `s` in lower case.
pub uninterp spec fn lower_of(s: Seq<char>) -> Seq<char>;

/// `s` in upper case.
pub uninterp spec fn upper_of(s: Seq<char>) -> Seq<char>;

/// Relies on `regex::Regex::new` and `regex::Regex::is_match`: whether the
/// compiled `pattern` matches somewhere in `text`, or `None` when `pattern`
/// does not compile. `Regex::new` fails only on an invalid pattern or one
/// over the default size limit; `GUESS_PATTERN` is neither. Outside multi-line
/// mode `^` and `$` match only at the start and end of the text, so
/// `GUESS_PATTERN` matches exactly the texts of five ASCII letters.
#[verifier::external_body]
fn pattern_matches(pattern: &str, text: &str) -> (r: Option<bool>)
    ensures
        r is Some ==> r->Some_0 == regex_matches(pattern@, text@),
        pattern@ == GUESS_PATTERN@ ==> r is Some && (r->Some_0 <==> five_ascii_letters(text@)),
{
    match regex::Regex::new(pattern) {
        Ok(re) => Some(re.is_match(text)),
        Err(_) => None,
    }
}

/// Relies on `str::trim`: the text without leading and trailing white space.
#[verifier::external_body]
fn trim(s: &str) -> (r: String)
    ensures
        r@ == trimmed(s@),
{
    s.trim().to_string()
}

/// Relies on `str::to_lowercase`: the lower-case form of the text.
#[verifier::external_body]
fn lowercase(s: &str) -> (r: String)
    ensures
        r@ == lower_of(s@),
{
    s.to_lowercase()
}

/// Relies on `str::to_uppercase`: the upper-case form of the text.
#[verifier::external_body]
fn uppercase(s: &str) -> (r: String)
    ensures
        r@ == upper_of(s@),
{
    s.to_uppercase()
}

/// Does `wordlist` hold `word`?
pub fn is_listed(word: &String, wordlist: &Vec<String>) -> (r: bool)
    ensures
        r == contains_word(wordlist@, word@),
{
    let mut i: usize = 0;
    while i < wordlist.len()
        invariant
            i <= wordlist@.len(),
            forall|j: int| 0 <= j < i ==> (#[trigger] wordlist@[j])@ != word@,
        decreases wordlist@.len() - i,
    {
        if wordlist[i] == *word {
            return true;
        }
        i = i + 1;
    }
    false
}

/// Is a trimmed guess accepted, given whether it has the shape of a guess
/// (`shape`, the outcome of matching it against `GUESS_PATTERN`)? It must have
/// that shape and be one of the listed words.
pub fn accept_guess(shape: Option<bool>, guess: &String, wordlist: &Vec<String>) -> (r: bool)
    ensures
        r == (shape == Some(true) && contains_word(wordlist@, guess@)),
{
    match shape {
        Some(true) => is_listed(guess, wordlist),
        _ => false,
    }
}

/// Checks one input line: trimmed, it must be five ASCII letters and one of
/// the listed words. The accepted guess is given back in lower case.
pub fn check_guess(line: &str, wordlist: &Vec<String>) -> (r: Option<String>)
    ensures
        r is Some <==> five_ascii_letters(trimmed(line@)) && contains_word(
            wordlist@,
            trimmed(line@),
        ),
        r is Some ==> r->Some_0@ == lower_of(trimmed(line@)),
{
    let guess = trim(line);
    let shape = pattern_matches(GUESS_PATTERN, guess.as_str());
    if accept_guess(shape, &guess, wordlist) {
        Some(lowercase(guess.as_str()))
    } else {
        None
    }
}

/// The text of the message for a rejected guess.
pub open spec fn invalid_guess_text(guess: Seq<char>) -> Seq<char> {
    "Invalid word \""@ + guess + "\"! Please enter a new guess:\n"@
}

/// The message shown when `guess` is rejected.
pub fn invalid_guess_message(guess: &str) -> (r: String)
    ensures
        r@ == invalid_guess_text(guess@),
{
    let mut msg = String::from_str("Invalid word \"");
    msg.append(guess);
    msg.append("\"! Please enter a new guess:\n");
    msg
}

/// The text announcing how the game ended; it reveals the solution.
pub open spec fn result_text(outcome: Outcome, solution: Seq<char>) -> Seq<char> {
    let word = style_code(TermFormatter::DefaultBold) + upper_of(solution) + style_code(
        TermFormatter::Clear,
    ) + "\""@;
    if outcome == Outcome::Won {
        style_code(TermFormatter::GreenBold) + "WINNER!"@ + style_code(TermFormatter::Clear)
            + " Word was \""@ + word
    } else {
        "Failed to guess in 6 tries! Word was \""@ + word
    }
}

/// The line announcing the end of the game, or `None` while it goes on.
pub fn result_message(outcome: Outcome, solution: &str) -> (r: Option<String>)
    ensures
        outcome == Outcome::Playing <==> r is None,
        r is Some ==> r->Some_0@ == result_text(outcome, solution@),
{
    let mut msg = match outcome {
        Outcome::Won => {
            let mut m = TermFormatter::GreenBold.as_str();
            m.append("WINNER!");
            m.append(TermFormatter::Clear.as_str().as_str());
            m.append(" Word was \"");
            m
        },
        Outcome::Lost => String::from_str("Failed to guess in 6 tries! Word was \""),
        Outcome::Playing => {
            return None;
        },
    };
    msg.append(TermFormatter::DefaultBold.as_str().as_str());
    msg.append(uppercase(solution).as_str());
    msg.append(TermFormatter::Clear.as_str().as_str());
    msg.append("\"");
    Some(msg)
}

} // verus!
