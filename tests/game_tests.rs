use rustle::display::{count_newlines, Logo, RustleDisplay, TermCommand, TermFormatter};
use rustle::guess::{classify, is_solved, judge, new_board, record, GuessError, Outcome};
use rustle::input::{accept_guess, check_guess, invalid_guess_message, is_listed, result_message};
use rustle::words::{daily_solution_url, WordleWords, WordsError};
use rustle::{process_guess, Letter, LetterState};

use rustle::LetterState::{Correct, Exists, Incorrect, NotExists};

fn states(row: &[Letter]) -> Vec<LetterState> {
    row.iter().map(|l| l.status).collect()
}

fn words(list: &[&str]) -> Vec<String> {
    list.iter().map(|w| w.to_string()).collect()
}

#[test]
fn nouns_against_snaps() {
    let row = classify("nouns", "snaps").unwrap();
    let glyphs: String = row.iter().map(|l| l.value).collect();
    assert_eq!(glyphs, "nouns");
    assert_eq!(states(&row), vec![Exists, Incorrect, Incorrect, Incorrect, Correct]);
}

#[test]
fn exact_guess_is_all_correct() {
    let row = classify("snaps", "snaps").unwrap();
    assert_eq!(states(&row), vec![Correct; 5]);
    assert!(is_solved(&row));
}

#[test]
fn disjoint_guess_is_all_incorrect() {
    let row = classify("abcde", "fghij").unwrap();
    assert_eq!(states(&row), vec![Incorrect; 5]);
}

#[test]
fn repeated_letter_marked_once() {
    // One 'a' in "crane" (third letter); "banal" has two, neither in that place.
    let row = classify("banal", "crane").unwrap();
    assert_eq!(states(&row), vec![Incorrect, Exists, Exists, Incorrect, Incorrect]);
    let marked_a = row
        .iter()
        .filter(|l| l.value == 'a' && (l.status == Correct || l.status == Exists))
        .count();
    assert_eq!(marked_a, 1);
}

#[test]
fn marks_never_exceed_solution_count() {
    let row = classify("aaaaa", "abcde").unwrap();
    assert_eq!(states(&row), vec![Correct, Incorrect, Incorrect, Incorrect, Incorrect]);
    let row = classify("eeabb", "abbey").unwrap();
    // Solution "abbey": one 'e', two 'b's, one 'a'.
    assert_eq!(states(&row), vec![Exists, Incorrect, Exists, Exists, Exists]);
}

#[test]
fn exact_match_claims_before_earlier_letter() {
    // The exact 's' is matched first; the one 's' of "dress" left over goes
    // to the first 's' of the guess, and none is left for the third.
    let row = classify("sissy", "dress").unwrap();
    assert_eq!(states(&row), vec![Exists, Incorrect, Incorrect, Correct, Incorrect]);
}

#[test]
fn classification_is_repeatable() {
    let first = classify("nouns", "snaps").unwrap();
    let second = classify("nouns", "snaps").unwrap();
    assert_eq!(first, second);
}

#[test]
fn length_mismatch_is_rejected() {
    assert_eq!(classify("snap", "snaps"), Err(GuessError::LengthMismatch));
    assert_eq!(classify("", "snaps"), Err(GuessError::LengthMismatch));
    assert_eq!(classify("", ""), Ok(vec![]));
}

#[test]
fn record_beyond_board_is_out_of_range() {
    let mut board = new_board(5);
    let before = board.clone();
    let row = classify("nouns", "snaps").unwrap();
    assert_eq!(record(&mut board, 7, row.clone()), Err(GuessError::OutOfRange));
    assert_eq!(record(&mut board, 0, row), Err(GuessError::OutOfRange));
    assert_eq!(board, before);
    assert_eq!(
        process_guess("nouns", &mut board, "snaps", 7),
        Err(GuessError::OutOfRange)
    );
    assert_eq!(
        process_guess("noun", &mut board, "snaps", 2),
        Err(GuessError::LengthMismatch)
    );
    assert_eq!(board, before);
}

#[test]
fn record_changes_only_its_row() {
    let mut board = new_board(5);
    let before = board.clone();
    let row = classify("nouns", "snaps").unwrap();
    assert_eq!(record(&mut board, 4, row.clone()), Ok(()));
    for k in 0..6 {
        if k == 3 {
            assert_eq!(board[k], row);
        } else {
            assert_eq!(board[k], before[k]);
        }
    }
}

#[test]
fn new_board_is_blank() {
    let board = new_board(5);
    for row in board.iter() {
        assert_eq!(row.len(), 5);
        for l in row {
            assert_eq!(l.value, ' ');
            assert_eq!(l.status, NotExists);
        }
    }
}

#[test]
fn solved_only_when_all_correct() {
    assert!(is_solved(&classify("crane", "crane").unwrap()));
    assert!(!is_solved(&classify("crank", "crane").unwrap()));
    assert!(!is_solved(&new_board(5)[0]));
    assert!(is_solved(&vec![]));
}

#[test]
fn six_misses_lose_and_reveal_solution() {
    let mut board = new_board(5);
    let guesses = ["nouns", "abcde", "crane", "banal", "fghij", "sissy"];
    for (i, g) in guesses.iter().enumerate() {
        let attempt = (i + 1) as u8;
        assert_eq!(process_guess(g, &mut board, "snaps", attempt), Ok(()));
        let outcome = judge(&board[i], attempt);
        if attempt < 6 {
            assert_eq!(outcome, Outcome::Playing);
            assert_eq!(result_message(outcome, "snaps"), None);
        } else {
            assert_eq!(outcome, Outcome::Lost);
            assert_eq!(
                result_message(outcome, "snaps"),
                Some(String::from(
                    "Failed to guess in 6 tries! Word was \"\x1b[1mSNAPS\x1b[0m\""
                ))
            );
        }
    }
}

#[test]
fn matching_guess_wins() {
    let mut board = new_board(5);
    assert_eq!(process_guess("snaps", &mut board, "snaps", 2), Ok(()));
    assert_eq!(judge(&board[1], 2), Outcome::Won);
    assert_eq!(judge(&board[1], 6), Outcome::Won);
    assert_eq!(
        result_message(Outcome::Won, "snaps"),
        Some(String::from(
            "\x1b[0;92m\x1b[1mWINNER!\x1b[0m Word was \"\x1b[1mSNAPS\x1b[0m\""
        ))
    );
}

#[test]
fn style_codes() {
    assert_eq!(TermFormatter::GreenBg.as_str(), "\x1b[102m");
    assert_eq!(TermFormatter::YellowBg.as_str(), "\x1b[103m");
    assert_eq!(TermFormatter::WhiteBg.as_str(), "\x1b[47m");
    assert_eq!(TermFormatter::GrayBg.as_str(), "\x1b[100m");
    assert_eq!(TermFormatter::GreenFg.as_str(), "\x1b[0;92m");
    assert_eq!(TermFormatter::RedFg.as_str(), "\x1b[0;31m");
    assert_eq!(TermFormatter::BlackFg.as_str(), "\x1b[0;30m");
    assert_eq!(TermFormatter::Clear.as_str(), "\x1b[0m");
    assert_eq!(TermFormatter::DefaultBold.as_str(), "\x1b[1m");
    assert_eq!(TermFormatter::BlackBold.as_str(), "\x1b[0;30m\x1b[1m");
    assert_eq!(TermFormatter::GreenBold.as_str(), "\x1b[0;92m\x1b[1m");
    assert_eq!(TermFormatter::RedBold.as_str(), "\x1b[0;31m\x1b[1m");
    assert_eq!(TermFormatter::SlowBlink.as_str(), "\x1b[5m");
}

#[test]
fn logo_modes() {
    let online = Logo::get_logo(false);
    let offline = Logo::get_logo(true);
    assert!(online.starts_with("\n ooooooooo."));
    assert!(online.ends_with("`Y88888P'\n\n\n"));
    assert!(!online.contains("OFFLINE!"));
    assert_eq!(count_newlines(&online), 10);
    assert!(offline.ends_with(
        "`Y88888P'\n                         \x1b[0;92m\x1b[5m\x1b[1mOFFLINE!\x1b[0m\n\n\n"
    ));
    assert_eq!(count_newlines(&offline), 11);
}

/// Follows the cursor through the commands: (row, remembered row).
fn follow(cmds: &[TermCommand], mut row: i64, mut saved: i64, lo: i64, hi: i64) -> (i64, i64) {
    for c in cmds {
        match c {
            TermCommand::SavePosition => saved = row,
            TermCommand::RestorePosition => row = saved,
            TermCommand::MoveUp(n) => row -= *n as i64,
            TermCommand::Print(s) => row += s.matches('\n').count() as i64,
            TermCommand::ClearFromCursorDown | TermCommand::ShowCursor => {}
        }
        assert!(lo <= row && row <= hi, "cursor left the canvas: row {}", row);
    }
    (row, saved)
}

#[test]
fn canvas_cycle_returns_cursor() {
    for offline in [false, true] {
        let height: i64 = if offline { 25 } else { 24 };
        let (mut canvas, init) = RustleDisplay::initialize_ui(offline).unwrap();
        assert_eq!(init[0], TermCommand::SavePosition);
        assert_eq!(init[1], TermCommand::Print("\n".repeat(height as usize)));
        let mut all = init.clone();
        all.extend(canvas.draw_logo());
        let board = new_board(5);
        let ui = canvas.draw_ui(&board);
        // The logo left the cursor at the top of the board zone already.
        assert_eq!(ui[0], TermCommand::MoveUp(0));
        assert_eq!(ui[1], TermCommand::ClearFromCursorDown);
        assert_eq!(ui.len(), 9);
        assert_eq!(ui[8], TermCommand::ShowCursor);
        all.extend(ui);
        let teardown = canvas.terminate_ui();
        assert_eq!(teardown[0], TermCommand::MoveUp(height as u16 - 2));
        assert_eq!(teardown[2], TermCommand::RestorePosition);
        all.extend(teardown);
        assert_eq!(follow(&all, 0, 0, 0, height), (0, 0));
    }
}

#[test]
fn canvas_turn_with_input_error() {
    let (mut canvas, init) = RustleDisplay::initialize_ui(false).unwrap();
    let mut all = init;
    all.extend(canvas.draw_logo());
    all.extend(canvas.draw_ui(&new_board(5)));
    all.extend(canvas.draw_line("Enter a word guess:"));
    // The terminal echoes the player's input line.
    canvas.note_input_line();
    all.push(TermCommand::Print(String::from("zzzzz\n")));
    let msg = invalid_guess_message("zzzzz");
    let err = canvas.draw_input_error(&msg);
    assert_eq!(err[0], TermCommand::MoveUp(2));
    assert_eq!(
        err[2],
        TermCommand::Print(String::from(
            "\x1b[0;31mInvalid word \"zzzzz\"! Please enter a new guess:\n\x1b[0m"
        ))
    );
    all.extend(err);
    canvas.note_input_line();
    all.push(TermCommand::Print(String::from("snaps\n")));
    // The cursor is back at the bottom, where the board is drawn from.
    all.extend(canvas.draw_ui(&new_board(5)));
    all.extend(canvas.terminate_ui());
    assert_eq!(follow(&all, 0, 0, 0, 24), (0, 0));
}

#[test]
fn board_row_text() {
    let (mut canvas, _) = RustleDisplay::initialize_ui(false).unwrap();
    canvas.draw_logo();
    let mut board = new_board(5);
    assert_eq!(process_guess("nouns", &mut board, "snaps", 1), Ok(()));
    let ui = canvas.draw_ui(&board);
    let cell = |c: char, color: &str| format!("\x1b[0;30m\x1b[1m{} {} \x1b[0m ", color, c);
    let expected = format!(
        "{}{}{}{}{}{}\n\n",
        " ".repeat(19),
        cell('n', "\x1b[103m"),
        cell('o', "\x1b[100m"),
        cell('u', "\x1b[100m"),
        cell('n', "\x1b[100m"),
        cell('s', "\x1b[102m"),
    );
    assert_eq!(ui[2], TermCommand::Print(expected));
}

#[test]
fn guess_lines_are_checked() {
    let list = words(&["snaps", "Crane", "snap", "sn4ps"]);
    assert_eq!(check_guess("snaps\n", &list), Some(String::from("snaps")));
    assert_eq!(check_guess("  Crane \r\n", &list), Some(String::from("crane")));
    assert_eq!(check_guess("SNAPS", &list), None);
    assert_eq!(check_guess("snap", &list), None);
    assert_eq!(check_guess("sn4ps", &list), None);
    assert_eq!(check_guess("nouns", &list), None);
    assert!(accept_guess(Some(true), &String::from("snaps"), &list));
    assert!(!accept_guess(Some(false), &String::from("snaps"), &list));
    assert!(!accept_guess(None, &String::from("snaps"), &list));
    assert!(!accept_guess(Some(true), &String::from("nouns"), &list));
    assert!(is_listed(&String::from("Crane"), &list));
    assert!(!is_listed(&String::from("crane"), &list));
    assert_eq!(
        invalid_guess_message("abc"),
        "Invalid word \"abc\"! Please enter a new guess:\n"
    );
}

#[test]
fn words_prefer_remote_solution() {
    let list = words(&["snaps", "crane"]);
    let w = WordleWords::new(false, list.clone(), Some(String::from("nouns"))).unwrap();
    assert_eq!(w.get_solution(), "nouns");
    assert!(!w.is_offline());
    assert_eq!(w.get_wordlist(), &list);
}

#[test]
fn words_fall_back_offline() {
    let list = words(&["snaps", "crane"]);
    let w = WordleWords::new(true, list.clone(), Some(String::from("nouns"))).unwrap();
    assert!(w.is_offline());
    assert!(list.contains(w.get_solution()));
    let w = WordleWords::new(false, list.clone(), None).unwrap();
    assert!(w.is_offline());
    assert!(list.contains(w.get_solution()));
    let w = WordleWords::settle(false, list.clone(), None, Some(String::from("crane"))).unwrap();
    assert_eq!(w.get_solution(), "crane");
    assert!(w.is_offline());
}

#[test]
fn empty_wordlist_needs_remote() {
    assert!(matches!(
        WordleWords::new(true, vec![], None),
        Err(WordsError::EmptyWordlist)
    ));
    assert!(matches!(
        WordleWords::new(false, vec![], None),
        Err(WordsError::EmptyWordlist)
    ));
    let w = WordleWords::new(false, vec![], Some(String::from("snaps"))).unwrap();
    assert_eq!(w.get_solution(), "snaps");
}

#[test]
fn daily_url_is_zero_padded() {
    assert_eq!(
        daily_solution_url(2024, 3, 7),
        "https://www.nytimes.com/svc/wordle/v2/2024-03-07.json"
    );
    assert_eq!(
        daily_solution_url(2023, 12, 25),
        "https://www.nytimes.com/svc/wordle/v2/2023-12-25.json"
    );
    assert_eq!(
        daily_solution_url(0, 10, 1),
        "https://www.nytimes.com/svc/wordle/v2/0-10-01.json"
    );
}

#[test]
fn board_redrawn_right_after_input_error() {
    let (mut canvas, init) = RustleDisplay::initialize_ui(false).unwrap();
    let mut all = init;
    all.extend(canvas.draw_logo());
    all.extend(canvas.draw_ui(&new_board(5)));
    all.extend(canvas.draw_line("Enter a word guess:"));
    canvas.note_input_line();
    all.push(TermCommand::Print(String::from("zzzzz\n")));
    all.extend(canvas.draw_input_error(&invalid_guess_message("zzzzz")));
    // The cursor sits one line above the bottom; the board is redrawn from there.
    let ui = canvas.draw_ui(&new_board(5));
    assert_eq!(ui[0], TermCommand::MoveUp(13));
    assert_eq!(ui[1], TermCommand::ClearFromCursorDown);
    all.extend(ui);
    all.extend(canvas.terminate_ui());
    assert_eq!(follow(&all, 0, 0, 0, 24), (0, 0));
}

#[test]
fn check_guess_accepts_every_valid_line() {
    let list = words(&["snaps", "nouns", "Abbey"]);
    for line in ["snaps", "nouns\n", "\tAbbey  "] {
        let expected = line.trim().to_lowercase();
        assert_eq!(check_guess(line, &list), Some(expected));
    }
}

#[test]
fn logo_leaves_cursor_at_board_top() {
    for (offline, height) in [(false, 24i64), (true, 25i64)] {
        let (mut canvas, init) = RustleDisplay::initialize_ui(offline).unwrap();
        let logo = canvas.draw_logo();
        assert_eq!(logo.len(), 2);
        assert_eq!(logo[0], TermCommand::MoveUp(height as u16));
        let mut text = TermFormatter::DefaultBold.as_str();
        text.push_str(&Logo::get_logo(offline));
        text.push_str(&TermFormatter::Clear.as_str());
        assert_eq!(logo[1], TermCommand::Print(text));
        let mut all = init;
        all.extend(logo);
        assert_eq!(follow(&all, 0, 0, 0, height), (height - 14, 0));
    }
}
