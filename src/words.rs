//! The word list and the solution of a game.

use rand::seq::SliceRandom;
use vstd::prelude::*;

use crate::display::push_char;

verus! {

/// Does `list` hold the word `w`?
pub open spec fn contains_word(list: Seq<String>, w: Seq<char>) -> bool {
    exists|i: int| 0 <= i < list.len() && (#[trigger] list[i])@ == w
}

/// Why no solution could be settled.
#[derive(Debug, Clone, Copy, PartialEq, Eq, Structural)]
pub enum WordsError {
    /// A local solution was needed and the word list is empty.
    EmptyWordlist,
}

/// Relies on `rand::seq::SliceRandom::choose` with the thread-local
/// generator: `None` for an empty list, otherwise one of its words.
#[verifier::external_body]
fn choose_word(words: &Vec<String>) -> (r: Option<String>)
    ensures
        r is None <==> words@.len() == 0,
        r is Some ==> contains_word(words@, r->Some_0@),
{
    words.choose(&mut rand::thread_rng()).cloned()
}

/// The words of a game: the list of accepted guesses, the solution, and
/// whether the game runs offline (on a solution picked from the list).
pub struct WordleWords {
    solution: String,
    wordlist: Vec<String>,
    offline: bool,
}

impl WordleWords {
    pub closed spec fn solution_view(&self) -> Seq<char> {
        self.solution@
    }

    pub closed spec fn wordlist_view(&self) -> Seq<String> {
        self.wordlist@
    }

    pub closed spec fn offline_mode(&self) -> bool {
        self.offline
    }

    /// Offline, the solution is one of the listed words.
    pub closed spec fn wf(&self) -> bool {
        self.offline ==> contains_word(self.wordlist@, self.solution@)
    }

    /// Settles the words of a game.
    ///
    /// Online (`offline` false) with a `remote` solution, that solution is
    /// used. Otherwise (offline was asked for, or no remote solution could be
    /// had) the game goes offline with the `local` pick from the list, which
    /// must be one of its words; without one it fails with `EmptyWordlist`.
    pub fn settle(
        offline: bool,
        wordlist: Vec<String>,
        remote: Option<String>,
        local: Option<String>,
    ) -> (r: Result<WordleWords, WordsError>)
        requires
            local is Some ==> contains_word(wordlist@, local->Some_0@),
        ensures
            !offline && remote is Some ==> r is Ok && r->Ok_0.solution_view() == remote->Some_0@
                && !r->Ok_0.offline_mode(),
            (offline || remote is None) && local is Some ==> r is Ok
                && r->Ok_0.solution_view() == local->Some_0@ && r->Ok_0.offline_mode(),
            (offline || remote is None) && local is None ==> r == Err::<WordleWords, WordsError>(
                WordsError::EmptyWordlist,
            ),
            r is Ok ==> r->Ok_0.wordlist_view() == wordlist@ && r->Ok_0.wf(),
    {
        if !offline {
            if let Some(sol) = remote {
                return Ok(WordleWords { solution: sol, wordlist: wordlist, offline: false });
            }
        }
        match local {
            Some(sol) => Ok(WordleWords { solution: sol, wordlist: wordlist, offline: true }),
            None => Err(WordsError::EmptyWordlist),
        }
    }

    /// The words of a game, picking a random solution from `wordlist` when
    /// `offline` is asked for or `remote` holds no solution.
    pub fn new(offline: bool, wordlist: Vec<String>, remote: Option<String>) -> (r: Result<
        WordleWords,
        WordsError,
    >)
        ensures
            !offline && remote is Some ==> r is Ok && r->Ok_0.solution_view() == remote->Some_0@
                && !r->Ok_0.offline_mode(),
            (offline || remote is None) ==> (r is Ok <==> wordlist@.len() > 0),
            (offline || remote is None) && r is Ok ==> r->Ok_0.offline_mode() && contains_word(
                wordlist@,
                r->Ok_0.solution_view(),
            ),
            r is Err ==> r == Err::<WordleWords, WordsError>(WordsError::EmptyWordlist),
            r is Ok ==> r->Ok_0.wordlist_view() == wordlist@ && r->Ok_0.wf(),
    {
        let local = if offline || remote.is_none() {
            choose_word(&wordlist)
        } else {
            None
        };
        WordleWords::settle(offline, wordlist, remote, local)
    }

    pub fn is_offline(&self) -> (r: bool)
        ensures
            r == self.offline_mode(),
    {
        self.offline
    }

    pub fn get_solution(&self) -> (r: &String)
        ensures
            r@ == self.solution_view(),
    {
        &self.solution
    }

    pub fn get_wordlist(&self) -> (r: &Vec<String>)
        ensures
            r@ == self.wordlist_view(),
    {
        &self.wordlist
    }
}

/// The character of a decimal digit.
pub open spec fn digit_char(d: nat) -> char {
    if d == 0 {
        '0'
    } else if d == 1 {
        '1'
    } else if d == 2 {
        '2'
    } else if d == 3 {
        '3'
    } else if d == 4 {
        '4'
    } else if d == 5 {
        '5'
    } else if d == 6 {
        '6'
    } else if d == 7 {
        '7'
    } else if d == 8 {
        '8'
    } else {
        '9'
    }
}

/// `n` written in decimal, without leading zeros.
pub open spec fn decimal(n: nat) -> Seq<char>
    decreases n,
{
    if n < 10 {
        seq![digit_char(n)]
    } else {
        decimal(n / 10).push(digit_char(n % 10))
    }
}

/// `n` in decimal, with a leading zero below ten.
pub open spec fn two_digits(n: nat) -> Seq<char> {
    if n < 10 {
        seq!['0'] + decimal(n)
    } else {
        decimal(n)
    }
}

/// Where the solution of the given day is published.
pub open spec fn daily_url_text(year: nat, month: nat, day: nat) -> Seq<char> {
    "https://www.nytimes.com/svc/wordle/v2/"@ + decimal(year) + seq!['-'] + two_digits(month)
        + seq!['-'] + two_digits(day) + ".json"@
}

fn digit(d: u32) -> (c: char)
    requires
        d < 10,
    ensures
        c == digit_char(d as nat),
{
    if d == 0 {
        '0'
    } else if d == 1 {
        '1'
    } else if d == 2 {
        '2'
    } else if d == 3 {
        '3'
    } else if d == 4 {
        '4'
    } else if d == 5 {
        '5'
    } else if d == 6 {
        '6'
    } else if d == 7 {
        '7'
    } else if d == 8 {
        '8'
    } else {
        '9'
    }
}

/// Appends `n` in decimal to `s`.
fn push_decimal(s: &mut String, n: u32)
    ensures
        final(s)@ == old(s)@ + decimal(n as nat),
    decreases n,
{
    let ghost start = s@;
    if n >= 10 {
        push_decimal(s, n / 10);
    }
    let ghost mid = s@;
    push_char(s, digit(n % 10));
    proof {
        if n >= 10 {
            assert(mid == start + decimal((n / 10) as nat));
            assert(s@ =~= start + decimal((n / 10) as nat).push(digit_char((n % 10) as nat)));
        } else {
            assert(s@ =~= start + seq![digit_char(n as nat)]);
        }
    }
}

/// Appends `n` in decimal to `s`, with a leading zero below ten.
fn push_two_digits(s: &mut String, n: u32)
    ensures
        final(s)@ == old(s)@ + two_digits(n as nat),
{
    let ghost start = s@;
    if n < 10 {
        push_char(s, '0');
    }
    push_decimal(s, n);
    assert(s@ =~= start + two_digits(n as nat));
}

/// The address of the solution published for the given day.
pub fn daily_solution_url(year: u32, month: u32, day: u32) -> (r: String)
    ensures
        r@ == daily_url_text(year as nat, month as nat, day as nat),
{
    let mut url = String::from_str("https://www.nytimes.com/svc/wordle/v2/");
    push_decimal(&mut url, year);
    push_char(&mut url, '-');
    push_two_digits(&mut url, month);
    push_char(&mut url, '-');
    push_two_digits(&mut url, day);
    url.append(".json");
    assert(url@ =~= daily_url_text(year as nat, month as nat, day as nat));
    url
}

} // verus!
