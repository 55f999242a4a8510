use rustle::{process_guess, Letter, LetterState};

fn blank_row() -> Vec<Letter> {
    vec![
        Letter::new(' ', LetterState::NotExists),
        Letter::new(' ', LetterState::NotExists),
        Letter::new(' ', LetterState::NotExists),
        Letter::new(' ', LetterState::NotExists),
        Letter::new(' ', LetterState::NotExists),
    ]
}

#[test]
fn it_populates_guess_list() {
    let user_guess = "nouns";

    let mut guess_list: [Vec<Letter>; 6] = [
        blank_row(),
        blank_row(),
        blank_row(),
        blank_row(),
        blank_row(),
        blank_row(),
    ];

    let solution = "snaps";
    let attempt = 3;

    assert!(process_guess(user_guess, &mut guess_list, solution, attempt).is_ok());

    for (letter, char) in guess_list[usize::from(attempt) - 1].iter().zip(user_guess.chars()) {
        assert_eq!(letter.value(), char);
    }

    // "snaps" has one 'n' to spare, so only the first 'n' of "nouns" is marked.
    let expected = [
        LetterState::Exists,
        LetterState::Incorrect,
        LetterState::Incorrect,
        LetterState::Incorrect,
        LetterState::Correct,
    ];
    for (letter, status) in guess_list[usize::from(attempt) - 1].iter().zip(expected.iter()) {
        assert_eq!(letter.status(), status);
    }
}
