//! Styling codes, the logo, and the canvas: a fixed region of the terminal
//! that is repainted in place with relative cursor moves.

use vstd::prelude::*;

use crate::guess::MAX_TRIES;
use crate::{Letter, LetterState};

verus! {

/// The ANSI styles the game uses.
#[derive(Debug, Clone, Copy, PartialEq, Eq, Structural)]
pub enum TermFormatter {
    GreenBg,
    YellowBg,
    WhiteBg,
    GrayBg,
    GreenFg,
    RedFg,
    BlackFg,
    Clear,
    DefaultBold,
    BlackBold,
    GreenBold,
    RedBold,
    SlowBlink,
}

/// The escape sequence of a style that is a single SGR code.
pub open spec fn single_code(f: TermFormatter) -> Seq<char> {
    match f {
        TermFormatter::GreenBg => "\x1b[102m"@,
        TermFormatter::YellowBg => "\x1b[103m"@,
        TermFormatter::WhiteBg => "\x1b[47m"@,
        TermFormatter::GrayBg => "\x1b[100m"@,
        TermFormatter::GreenFg => "\x1b[0;92m"@,
        TermFormatter::BlackFg => "\x1b[0;30m"@,
        TermFormatter::RedFg => "\x1b[0;31m"@,
        TermFormatter::DefaultBold => "\x1b[1m"@,
        TermFormatter::Clear => "\x1b[0m"@,
        TermFormatter::SlowBlink => "\x1b[5m"@,
        TermFormatter::BlackBold => "\x1b[0;30m"@,
        TermFormatter::GreenBold => "\x1b[0;92m"@,
        TermFormatter::RedBold => "\x1b[0;31m"@,
    }
}

/// Is the style a colour combined with bold?
pub open spec fn is_bold_color(f: TermFormatter) -> bool {
    f == TermFormatter::BlackBold || f == TermFormatter::GreenBold || f == TermFormatter::RedBold
}

/// The text that selects a style. A bold colour is its colour code followed
/// by the bold code, written as one piece: some terminals do not combine the
/// two when they are given as one stacked sequence.
pub open spec fn style_code(f: TermFormatter) -> Seq<char> {
    if is_bold_color(f) {
        single_code(f) + single_code(TermFormatter::DefaultBold)
    } else {
        single_code(f)
    }
}

/// The background style of a letter's class.
pub open spec fn color_of(s: LetterState) -> TermFormatter {
    match s {
        LetterState::Correct => TermFormatter::GreenBg,
        LetterState::Exists => TermFormatter::YellowBg,
        LetterState::Incorrect => TermFormatter::GrayBg,
        LetterState::NotExists => TermFormatter::WhiteBg,
    }
}

impl TermFormatter {
    /// The escape sequence of the style.
    pub fn as_str(&self) -> (r: String)
        ensures
            r@ == style_code(*self),
    {
        match self {
            TermFormatter::GreenBg => String::from_str("\x1b[102m"),
            TermFormatter::YellowBg => String::from_str("\x1b[103m"),
            TermFormatter::WhiteBg => String::from_str("\x1b[47m"),
            TermFormatter::GrayBg => String::from_str("\x1b[100m"),
            TermFormatter::GreenFg => String::from_str("\x1b[0;92m"),
            TermFormatter::BlackFg => String::from_str("\x1b[0;30m"),
            TermFormatter::RedFg => String::from_str("\x1b[0;31m"),
            TermFormatter::DefaultBold => String::from_str("\x1b[1m"),
            TermFormatter::BlackBold => TermFormatter::get_bold("\x1b[0;30m"),
            TermFormatter::GreenBold => TermFormatter::get_bold("\x1b[0;92m"),
            TermFormatter::RedBold => TermFormatter::get_bold("\x1b[0;31m"),
            TermFormatter::Clear => String::from_str("\x1b[0m"),
            TermFormatter::SlowBlink => String::from_str("\x1b[5m"),
        }
    }

    /// A colour code followed by the bold code.
    fn get_bold(color: &str) -> (r: String)
        ensures
            r@ == color@ + single_code(TermFormatter::DefaultBold),
    {
        String::from_str(color).concat("\x1b[1m")
    }
}

impl Letter {
    /// The background style of the letter's class.
    pub fn get_ansi_color(&self) -> (r: String)
        ensures
            r@ == style_code(color_of(self.status)),
    {
        match self.status {
            LetterState::Correct => TermFormatter::GreenBg.as_str(),
            LetterState::Exists => TermFormatter::YellowBg.as_str(),
            LetterState::Incorrect => TermFormatter::GrayBg.as_str(),
            LetterState::NotExists => TermFormatter::WhiteBg.as_str(),
        }
    }
}

/// Relies on `String::push`: the character is appended at the end.
#[verifier::external_body]
pub(crate) fn push_char(s: &mut String, c: char)
    ensures
        final(s)@ == old(s)@.push(c),
{
    s.push(c)
}

/// `n` spaces.
pub open spec fn spaces(n: int) -> Seq<char>
    decreases n,
{
    if n <= 0 {
        Seq::empty()
    } else {
        spaces(n - 1).push(' ')
    }
}

/// `n` line breaks.
pub open spec fn line_breaks(n: int) -> Seq<char>
    decreases n,
{
    if n <= 0 {
        Seq::empty()
    } else {
        line_breaks(n - 1).push('\n')
    }
}

/// Appends `n` copies of `c` to `s`.
fn push_repeated(s: &mut String, c: char, n: usize)
    ensures
        c == ' ' ==> final(s)@ == old(s)@ + spaces(n as int),
        c == '\n' ==> final(s)@ == old(s)@ + line_breaks(n as int),
{
    let mut j: usize = 0;
    while j < n
        invariant
            j <= n,
            c == ' ' ==> s@ == old(s)@ + spaces(j as int),
            c == '\n' ==> s@ == old(s)@ + line_breaks(j as int),
        decreases n - j,
    {
        push_char(s, c);
        j = j + 1;
        assert(c == ' ' ==> s@ =~= old(s)@ + spaces(j as int));
        assert(c == '\n' ==> s@ =~= old(s)@ + line_breaks(j as int));
    }
}

/// How many line breaks `s` holds: how far down the cursor goes when `s` is
/// written.
pub open spec fn newlines(s: Seq<char>) -> nat
    decreases s.len(),
{
    if s.len() == 0 {
        0
    } else {
        newlines(s.drop_last()) + if s.last() == '\n' {
            1nat
        } else {
            0nat
        }
    }
}

proof fn lemma_newlines_concat(a: Seq<char>, b: Seq<char>)
    ensures
        newlines(a + b) == newlines(a) + newlines(b),
    decreases b.len(),
{
    if b.len() == 0 {
        assert(a + b =~= a);
    } else {
        lemma_newlines_concat(a, b.drop_last());
        assert((a + b).drop_last() =~= a + b.drop_last());
    }
}

proof fn lemma_newlines_free(s: Seq<char>)
    requires
        forall|i: int| 0 <= i < s.len() ==> s[i] != '\n',
    ensures
        newlines(s) == 0,
    decreases s.len(),
{
    if s.len() > 0 {
        lemma_newlines_free(s.drop_last());
    }
}

proof fn lemma_line_breaks(n: int)
    requires
        n >= 0,
    ensures
        newlines(line_breaks(n)) == n,
        line_breaks(n).len() == n,
    decreases n,
{
    if n > 0 {
        lemma_line_breaks(n - 1);
        assert(line_breaks(n).drop_last() =~= line_breaks(n - 1));
    }
}

proof fn lemma_spaces(n: int)
    requires
        n >= 0,
    ensures
        newlines(spaces(n)) == 0,
    decreases n,
{
    if n > 0 {
        lemma_spaces(n - 1);
        assert(spaces(n).drop_last() =~= spaces(n - 1));
    }
}

proof fn lemma_style_no_newline(f: TermFormatter)
    ensures
        newlines(style_code(f)) == 0,
{
    reveal_strlit("\x1b[102m");
    reveal_strlit("\x1b[103m");
    reveal_strlit("\x1b[47m");
    reveal_strlit("\x1b[100m");
    reveal_strlit("\x1b[0;92m");
    reveal_strlit("\x1b[0;30m");
    reveal_strlit("\x1b[0;31m");
    reveal_strlit("\x1b[1m");
    reveal_strlit("\x1b[0m");
    reveal_strlit("\x1b[5m");
    lemma_newlines_free(single_code(f));
    lemma_newlines_free(single_code(TermFormatter::DefaultBold));
    lemma_newlines_concat(single_code(f), single_code(TermFormatter::DefaultBold));
}

/// The logo drawn above the board.
pub const LOGO_ART: &'static str = "
 ooooooooo.                          ooo   oooo            
 `888   `Y88.                        888   '888            
  888   .d88' oooo  oooo   .oooo.o  88888   888   .ooooo.  
  888ooo88P'  '888  '888  d88(  \"8  '888'   888  d88' '88b 
  888`^\\888b   888   888  `\"Y88b.    888    888  888ooo888 
 .888.  `888.  888   888. o.  )88b   888.  .888. 888. .ooo 
 o888o   888o  `V88V\"V888 8\"\"888P'   8888  88888  `Y88888P'\n";

/// The label shown under the logo when no daily solution could be had.
pub const OFFLINE_LABEL: &'static str = "OFFLINE!";

/// Spaces before the offline label, which centre it under the logo.
pub const OFFLINE_INDENT: usize = 25;

/// The logo text: the art and two blank lines, or, offline, the art, the
/// blinking green label centred under it, and three line breaks.
pub open spec fn logo_text(offline: bool) -> Seq<char> {
    if offline {
        LOGO_ART@ + spaces(OFFLINE_INDENT as int) + style_code(TermFormatter::GreenFg) + style_code(
            TermFormatter::SlowBlink,
        ) + style_code(TermFormatter::DefaultBold) + OFFLINE_LABEL@ + style_code(
            TermFormatter::Clear,
        ) + line_breaks(3)
    } else {
        LOGO_ART@ + line_breaks(2)
    }
}

/// Holder of the logo.
pub struct Logo {}

impl Logo {
    /// The logo text for the given mode, owned by the caller.
    pub fn get_logo(offline: bool) -> (r: String)
        ensures
            r@ == logo_text(offline),
    {
        let mut logo = String::from_str(LOGO_ART);
        if offline {
            push_repeated(&mut logo, ' ', OFFLINE_INDENT);
            logo.append(TermFormatter::GreenFg.as_str().as_str());
            logo.append(TermFormatter::SlowBlink.as_str().as_str());
            logo.append(TermFormatter::DefaultBold.as_str().as_str());
            logo.append(OFFLINE_LABEL);
            logo.append(TermFormatter::Clear.as_str().as_str());
            push_repeated(&mut logo, '\n', 3);
        } else {
            push_repeated(&mut logo, '\n', 2);
        }
        logo
    }
}

/// Counts the line breaks in `s`.
pub fn count_newlines(s: &str) -> (r: usize)
    ensures
        r == newlines(s@),
{
    let n = s.unicode_len();
    let mut r: usize = 0;
    let mut i: usize = 0;
    while i < n
        invariant
            n == s@.len(),
            i <= n,
            r <= i,
            r == newlines(s@.subrange(0, i as int)),
        decreases n - i,
    {
        assert(s@.subrange(0, i + 1).drop_last() =~= s@.subrange(0, i as int));
        if s.get_char(i) == '\n' {
            r = r + 1;
        }
        i = i + 1;
    }
    assert(s@.subrange(0, n as int) =~= s@);
    r
}

/// Rows of the board zone: each guess row with a blank line after it, and
/// two lines for the prompt and the player's input.
pub const GAME_HEIGHT: u16 = 14;

/// Lines that the prompt and the input take under the board.
pub const PROMPT_LINES: u16 = 2;

/// Width of the canvas in columns.
pub const CANVAS_WIDTH: u16 = 58;

/// Width of one board row in columns: five cells of four columns.
pub const ROW_WIDTH: u16 = 20;

/// Spaces before each board row, which centre it on the canvas.
pub open spec fn board_indent() -> int {
    ((CANVAS_WIDTH - ROW_WIDTH) / 2) as int
}

/// A terminal operation that the canvas asks its caller to perform, in order.
#[derive(Debug, Clone, PartialEq, Eq)]
pub enum TermCommand {
    /// Remember the cursor position.
    SavePosition,
    /// Go back to the remembered cursor position.
    RestorePosition,
    /// Move the cursor up by this many lines.
    MoveUp(u16),
    /// Clear the screen from the cursor down.
    ClearFromCursorDown,
    /// Write this text at the cursor.
    Print(String),
    /// Make the cursor visible.
    ShowCursor,
}

/// A terminal operation, as a mathematical value.
pub enum Command {
    SavePosition,
    RestorePosition,
    MoveUp(nat),
    ClearFromCursorDown,
    Print(Seq<char>),
    ShowCursor,
}

impl View for TermCommand {
    type V = Command;

    open spec fn view(&self) -> Command {
        match self {
            TermCommand::SavePosition => Command::SavePosition,
            TermCommand::RestorePosition => Command::RestorePosition,
            TermCommand::MoveUp(n) => Command::MoveUp(*n as nat),
            TermCommand::ClearFromCursorDown => Command::ClearFromCursorDown,
            TermCommand::Print(s) => Command::Print(s@),
            TermCommand::ShowCursor => Command::ShowCursor,
        }
    }
}

pub open spec fn command_of(c: TermCommand) -> Command {
    c@
}

/// The operations of a list, as values.
pub open spec fn commands(cmds: Seq<TermCommand>) -> Seq<Command> {
    cmds.map_values(|c: TermCommand| command_of(c))
}

/// Where the cursor is: its row, counted down from the line where the canvas
/// was set up, and the row it remembered.
pub struct Cursor {
    pub row: int,
    pub saved: int,
}

/// The cursor after one operation.
pub open spec fn step(c: Command, at: Cursor) -> Cursor {
    match c {
        Command::SavePosition => Cursor { row: at.row, saved: at.row },
        Command::RestorePosition => Cursor { row: at.saved, saved: at.saved },
        Command::MoveUp(n) => Cursor { row: at.row - n, saved: at.saved },
        Command::Print(s) => Cursor { row: at.row + newlines(s), saved: at.saved },
        _ => at,
    }
}

/// The cursor after a list of operations.
pub open spec fn replay(cmds: Seq<Command>, at: Cursor) -> Cursor
    decreases cmds.len(),
{
    if cmds.len() == 0 {
        at
    } else {
        replay(cmds.drop_first(), step(cmds[0], at))
    }
}

/// Does the cursor stay on rows `0..=height`, before, between and after the
/// operations? Text is written line by line, so the row in the middle of a
/// `Print` lies between the rows before and after it.
pub open spec fn stays_within(cmds: Seq<Command>, at: Cursor, height: int) -> bool
    decreases cmds.len(),
{
    &&& 0 <= at.row <= height
    &&& (cmds.len() > 0 ==> stays_within(cmds.drop_first(), step(cmds[0], at), height))
}

proof fn lemma_replay_concat(a: Seq<Command>, b: Seq<Command>, at: Cursor, height: int)
    ensures
        replay(a + b, at) == replay(b, replay(a, at)),
        stays_within(a + b, at, height) == (stays_within(a, at, height) && stays_within(
            b,
            replay(a, at),
            height,
        )),
    decreases a.len(),
{
    if a.len() == 0 {
        assert(a + b =~= b);
    } else {
        assert((a + b).drop_first() =~= a.drop_first() + b);
        assert((a + b)[0] == a[0]);
        lemma_replay_concat(a.drop_first(), b, step(a[0], at), height);
    }
}

proof fn lemma_replay_one(c: Command, at: Cursor, height: int)
    ensures
        replay(seq![c], at) == step(c, at),
        stays_within(seq![c], at, height) == (0 <= at.row <= height && 0 <= step(c, at).row
            <= height),
{
    let s = seq![c];
    assert(s[0] == c);
    assert(s.drop_first() =~= Seq::<Command>::empty());
    assert(replay(s.drop_first(), step(c, at)) == step(c, at));
    assert(stays_within(s.drop_first(), step(c, at), height) == (0 <= step(c, at).row <= height));
}

/// The reserved height of the canvas for the given mode.
pub open spec fn canvas_height(offline: bool) -> nat {
    GAME_HEIGHT as nat + newlines(logo_text(offline))
}

/// Setting up: remember the cursor, then reserve the canvas with line breaks.
pub open spec fn init_commands(height: nat) -> Seq<Command> {
    seq![Command::SavePosition, Command::Print(line_breaks(height as int))]
}

/// The bold logo, written from the top of the canvas; writing it leaves the
/// cursor at the top of the board zone.
pub open spec fn logo_commands(height: nat, offline: bool) -> Seq<Command> {
    seq![
        Command::MoveUp(height),
        Command::Print(
            style_code(TermFormatter::DefaultBold) + logo_text(offline) + style_code(
                TermFormatter::Clear,
            ),
        ),
    ]
}

/// One cell: bold black on the class's colour, the glyph with a space on each
/// side, then a space of separation.
pub open spec fn cell_text(l: Letter) -> Seq<char> {
    style_code(TermFormatter::BlackBold) + style_code(color_of(l.status)) + seq![' ', l.value, ' ']
        + style_code(TermFormatter::Clear) + seq![' ']
}

/// The cells of a row, side by side.
pub open spec fn cells_text(row: Seq<Letter>) -> Seq<char>
    decreases row.len(),
{
    if row.len() == 0 {
        Seq::empty()
    } else {
        cells_text(row.drop_last()) + cell_text(row.last())
    }
}

/// One board row: indented, its cells, then a blank line.
pub open spec fn row_text(row: Seq<Letter>) -> Seq<char> {
    spaces(board_indent()) + cells_text(row) + line_breaks(2)
}

/// One `Print` per row of the board.
pub open spec fn board_prints(board: Seq<Seq<Letter>>) -> Seq<Command>
    decreases board.len(),
{
    if board.len() == 0 {
        Seq::empty()
    } else {
        board_prints(board.drop_last()).push(Command::Print(row_text(board.last())))
    }
}

/// Repainting the board from `up` lines below the top of the board zone: up
/// to that top, clear everything below, write the rows, and show the cursor
/// again.
pub open spec fn board_commands(up: nat, board: Seq<Seq<Letter>>) -> Seq<Command> {
    seq![Command::MoveUp(up), Command::ClearFromCursorDown] + board_prints(board) + seq![
        Command::ShowCursor,
    ]
}

/// A line of text under the board.
pub open spec fn line_commands(text: Seq<char>) -> Seq<Command> {
    seq![Command::Print(text.push('\n'))]
}

/// An input error: up to the prompt line, clear below, and the message in red.
pub open spec fn error_commands(msg: Seq<char>) -> Seq<Command> {
    seq![
        Command::MoveUp(PROMPT_LINES as nat),
        Command::ClearFromCursorDown,
        Command::Print(style_code(TermFormatter::RedFg) + msg + style_code(TermFormatter::Clear)),
    ]
}

/// Tearing down: up to the top of the canvas, blank it out with line breaks,
/// and go back to the remembered position.
pub open spec fn teardown_commands(row: nat, height: nat) -> Seq<Command> {
    seq![
        Command::MoveUp(row),
        Command::Print(line_breaks(height as int)),
        Command::RestorePosition,
    ]
}

/// The board as rows of letters.
pub open spec fn board_view(board: [Vec<Letter>; 6]) -> Seq<Seq<Letter>> {
    board@.map_values(|r: Vec<Letter>| r@)
}

/// Can every glyph on the board be drawn inside its cell (none is a line
/// break)?
pub open spec fn drawable(board: Seq<Seq<Letter>>) -> bool {
    forall|i: int, j: int|
        0 <= i < board.len() && 0 <= j < board[i].len() ==> #[trigger] board[i][j].value != '\n'
}

/// The cursor on row `row` of the canvas, remembering its top.
pub open spec fn at_row(row: int) -> Cursor {
    Cursor { row: row, saved: 0 }
}

proof fn lemma_init_effect(height: nat)
    ensures
        replay(init_commands(height), at_row(0)) == at_row(height as int),
        stays_within(init_commands(height), at_row(0), height as int),
{
    let a = seq![Command::SavePosition];
    let b = seq![Command::Print(line_breaks(height as int))];
    assert(init_commands(height) =~= a + b);
    lemma_line_breaks(height as int);
    lemma_replay_concat(a, b, at_row(0), height as int);
    lemma_replay_one(Command::SavePosition, at_row(0), height as int);
    lemma_replay_one(Command::Print(line_breaks(height as int)), at_row(0), height as int);
}

proof fn lemma_three(c0: Command, c1: Command, c2: Command, at: Cursor, height: int)
    ensures
        replay(seq![c0, c1, c2], at) == step(c2, step(c1, step(c0, at))),
        stays_within(seq![c0, c1, c2], at, height) == (0 <= at.row <= height && 0 <= step(
            c0,
            at,
        ).row <= height && 0 <= step(c1, step(c0, at)).row <= height && 0 <= step(
            c2,
            step(c1, step(c0, at)),
        ).row <= height),
{
    assert(seq![c0, c1, c2] =~= seq![c0] + seq![c1] + seq![c2]);
    lemma_replay_concat(seq![c0] + seq![c1], seq![c2], at, height);
    lemma_replay_concat(seq![c0], seq![c1], at, height);
    lemma_replay_one(c0, at, height);
    lemma_replay_one(c1, step(c0, at), height);
    lemma_replay_one(c2, step(c1, step(c0, at)), height);
}

proof fn lemma_logo_effect(offline: bool)
    ensures
        replay(logo_commands(canvas_height(offline), offline), at_row(canvas_height(offline) as int))
            == at_row(canvas_height(offline) - GAME_HEIGHT),
        stays_within(
            logo_commands(canvas_height(offline), offline),
            at_row(canvas_height(offline) as int),
            canvas_height(offline) as int,
        ),
{
    let h = canvas_height(offline);
    let bold = style_code(TermFormatter::DefaultBold);
    let clear = style_code(TermFormatter::Clear);
    lemma_style_no_newline(TermFormatter::DefaultBold);
    lemma_style_no_newline(TermFormatter::Clear);
    lemma_newlines_concat(bold, logo_text(offline));
    lemma_newlines_concat(bold + logo_text(offline), clear);
    let up = Command::MoveUp(h);
    let print = Command::Print(bold + logo_text(offline) + clear);
    assert(logo_commands(h, offline) =~= seq![up] + seq![print]);
    lemma_replay_concat(seq![up], seq![print], at_row(h as int), h as int);
    lemma_replay_one(up, at_row(h as int), h as int);
    lemma_replay_one(print, at_row(0), h as int);
}

proof fn lemma_cells_text(row: Seq<Letter>)
    requires
        forall|j: int| 0 <= j < row.len() ==> #[trigger] row[j].value != '\n',
    ensures
        newlines(cells_text(row)) == 0,
    decreases row.len(),
{
    if row.len() > 0 {
        let l = row.last();
        assert(l == row[row.len() - 1]);
        lemma_cells_text(row.drop_last());
        lemma_style_no_newline(TermFormatter::BlackBold);
        lemma_style_no_newline(color_of(l.status));
        lemma_style_no_newline(TermFormatter::Clear);
        let a = style_code(TermFormatter::BlackBold);
        let b = style_code(color_of(l.status));
        let c = seq![' ', l.value, ' '];
        let d = style_code(TermFormatter::Clear);
        let e = seq![' '];
        lemma_newlines_free(c);
        lemma_newlines_free(e);
        lemma_newlines_concat(a, b);
        lemma_newlines_concat(a + b, c);
        lemma_newlines_concat(a + b + c, d);
        lemma_newlines_concat(a + b + c + d, e);
        lemma_newlines_concat(cells_text(row.drop_last()), cell_text(l));
    }
}

proof fn lemma_row_text(row: Seq<Letter>)
    requires
        forall|j: int| 0 <= j < row.len() ==> #[trigger] row[j].value != '\n',
    ensures
        newlines(row_text(row)) == 2,
{
    lemma_cells_text(row);
    lemma_spaces(board_indent());
    lemma_line_breaks(2);
    lemma_newlines_concat(spaces(board_indent()), cells_text(row));
    lemma_newlines_concat(spaces(board_indent()) + cells_text(row), line_breaks(2));
}

proof fn lemma_board_prints(board: Seq<Seq<Letter>>, row: int, height: int)
    requires
        drawable(board),
        0 <= row,
        row + 2 * board.len() <= height,
    ensures
        replay(board_prints(board), at_row(row)) == at_row(row + 2 * board.len()),
        stays_within(board_prints(board), at_row(row), height),
    decreases board.len(),
{
    if board.len() == 0 {
    } else {
        let rest = board.drop_last();
        assert(drawable(rest)) by {
            assert forall|i: int, j: int| 0 <= i < rest.len() && 0 <= j < rest[i].len() implies #[trigger] rest[i][j].value != '\n' by {
                assert(rest[i] == board[i]);
            }
        }
        lemma_board_prints(rest, row, height);
        let last = board.last();
        assert(last == board[board.len() - 1]);
        assert forall|j: int| 0 <= j < last.len() implies #[trigger] last[j].value != '\n' by {
            assert(board[board.len() - 1][j].value != '\n');
        }
        lemma_row_text(last);
        let p = Command::Print(row_text(last));
        assert(board_prints(board) =~= board_prints(rest) + seq![p]);
        lemma_replay_concat(board_prints(rest), seq![p], at_row(row), height);
        lemma_replay_one(p, at_row(row + 2 * rest.len()), height);
    }
}

proof fn lemma_board_effect(board: Seq<Seq<Letter>>, row: int, height: int)
    requires
        drawable(board),
        board.len() == MAX_TRIES,
        height >= GAME_HEIGHT,
        height - GAME_HEIGHT <= row <= height,
    ensures
        replay(board_commands((row - (height - GAME_HEIGHT)) as nat, board), at_row(row))
            == at_row(height - PROMPT_LINES),
        stays_within(
            board_commands((row - (height - GAME_HEIGHT)) as nat, board),
            at_row(row),
            height,
        ),
{
    let top = height - GAME_HEIGHT;
    let up = Command::MoveUp((row - top) as nat);
    let a = seq![up, Command::ClearFromCursorDown];
    let b = board_prints(board);
    let c = seq![Command::ShowCursor];
    assert(a =~= seq![up] + seq![Command::ClearFromCursorDown]);
    lemma_replay_concat(seq![up], seq![Command::ClearFromCursorDown], at_row(row), height);
    lemma_replay_one(up, at_row(row), height);
    lemma_replay_one(Command::ClearFromCursorDown, at_row(top), height);
    lemma_board_prints(board, top, height);
    lemma_replay_concat(a, b, at_row(row), height);
    lemma_replay_concat(a + b, c, at_row(row), height);
    lemma_replay_one(Command::ShowCursor, at_row(height - PROMPT_LINES), height);
}

proof fn lemma_teardown_effect(row: nat, height: nat)
    requires
        row <= height,
    ensures
        replay(teardown_commands(row, height), at_row(row as int)) == at_row(0),
        stays_within(teardown_commands(row, height), at_row(row as int), height as int),
{
    lemma_line_breaks(height as int);
    lemma_three(
        Command::MoveUp(row),
        Command::Print(line_breaks(height as int)),
        Command::RestorePosition,
        at_row(row as int),
        height as int,
    );
}

/// The operations of one whole session: set up, draw the logo, draw the
/// board, tear down.
pub open spec fn session_commands(offline: bool, board: Seq<Seq<Letter>>) -> Seq<Command> {
    let h = canvas_height(offline);
    init_commands(h) + logo_commands(h, offline) + board_commands(0, board) + teardown_commands(
        (h - PROMPT_LINES) as nat,
        h,
    )
}

/// Over one whole session of the canvas (set up, logo, board, tear down) the
/// cursor comes back to the row it started on, and on the way it never
/// leaves the reserved region.
pub proof fn lemma_session_returns_cursor(offline: bool, board: Seq<Seq<Letter>>)
    requires
        drawable(board),
        board.len() == MAX_TRIES,
    ensures
        replay(session_commands(offline, board), at_row(0)) == at_row(0),
        stays_within(session_commands(offline, board), at_row(0), canvas_height(offline) as int),
{
    let h = canvas_height(offline);
    let a = init_commands(h);
    let b = logo_commands(h, offline);
    let c = board_commands(0, board);
    let d = teardown_commands((h - PROMPT_LINES) as nat, h);
    lemma_init_effect(h);
    lemma_logo_effect(offline);
    lemma_board_effect(board, h - GAME_HEIGHT, h as int);
    lemma_teardown_effect((h - PROMPT_LINES) as nat, h);
    lemma_replay_concat(a, b, at_row(0), h as int);
    lemma_replay_concat(a + b, c, at_row(0), h as int);
    lemma_replay_concat(a + b + c, d, at_row(0), h as int);
}

/// Why the canvas could not be set up.
#[derive(Debug, Clone, Copy, PartialEq, Eq, Structural)]
pub enum CanvasError {
    /// The canvas would be taller than a cursor move can span.
    TooTall,
}

/// The canvas: a region of the terminal, reserved once, that the game
/// repaints in place.
///
/// It does not write to the terminal itself: each operation returns the
/// terminal commands to perform, in order, and the canvas keeps track of the
/// row the cursor is on, counted from the line where it was set up. That row
/// never leaves the reserved region, so relative moves stay in step with the
/// real cursor without querying the terminal.
pub struct RustleDisplay {
    overall_height: u16,
    overall_width: u16,
    game_height: u16,
    offline: bool,
    row: u16,
    active: bool,
}

impl RustleDisplay {
    /// The reserved height.
    pub closed spec fn height(&self) -> nat {
        self.overall_height as nat
    }

    /// The row the cursor is on.
    pub closed spec fn cursor_row(&self) -> nat {
        self.row as nat
    }

    /// Was the canvas set up for offline play?
    pub closed spec fn offline_mode(&self) -> bool {
        self.offline
    }

    /// Has the canvas not been torn down yet?
    pub closed spec fn is_active(&self) -> bool {
        self.active
    }

    pub closed spec fn wf(&self) -> bool {
        &&& self.game_height == GAME_HEIGHT
        &&& self.overall_width == CANVAS_WIDTH
        &&& self.overall_height as nat == canvas_height(self.offline)
        &&& self.row <= self.overall_height
    }

    /// Sets up the canvas: remembers the cursor position and reserves the
    /// logo's lines and the board zone below the cursor.
    pub fn initialize_ui(offline: bool) -> (r: Result<(RustleDisplay, Vec<TermCommand>), CanvasError>)
        ensures
            r is Ok <==> canvas_height(offline) <= u16::MAX,
            r is Err ==> r->Err_0 == CanvasError::TooTall,
            r is Ok ==> r->Ok_0.0.wf() && r->Ok_0.0.is_active() && r->Ok_0.0.offline_mode()
                == offline && r->Ok_0.0.height() == canvas_height(offline)
                && r->Ok_0.0.cursor_row() == canvas_height(offline),
            r is Ok ==> commands(r->Ok_0.1@) == init_commands(canvas_height(offline)),
            r is Ok ==> replay(commands(r->Ok_0.1@), at_row(0)) == at_row(
                r->Ok_0.0.cursor_row() as int,
            ),
            r is Ok ==> stays_within(
                commands(r->Ok_0.1@),
                at_row(0),
                canvas_height(offline) as int,
            ),
    {
        let logo = Logo::get_logo(offline);
        let logo_lines = count_newlines(logo.as_str());
        if logo_lines > (u16::MAX - GAME_HEIGHT) as usize {
            return Err(CanvasError::TooTall);
        }
        let overall_height = GAME_HEIGHT + logo_lines as u16;
        let mut reserve = String::new();
        push_repeated(&mut reserve, '\n', overall_height as usize);
        let mut cmds: Vec<TermCommand> = Vec::new();
        cmds.push(TermCommand::SavePosition);
        cmds.push(TermCommand::Print(reserve));
        assert(commands(cmds@) =~= init_commands(canvas_height(offline)));
        proof {
            lemma_init_effect(canvas_height(offline));
        }
        let display = RustleDisplay {
            overall_height: overall_height,
            overall_width: CANVAS_WIDTH,
            game_height: GAME_HEIGHT,
            offline: offline,
            row: overall_height,
            active: true,
        };
        Ok((display, cmds))
    }

    /// Draws the bold logo at the top of the canvas. The cursor is left at the
    /// top of the board zone, under the logo.
    pub fn draw_logo(&mut self) -> (r: Vec<TermCommand>)
        requires
            old(self).wf(),
            old(self).is_active(),
            old(self).cursor_row() == old(self).height(),
        ensures
            final(self).wf(),
            final(self).is_active(),
            final(self).height() == old(self).height(),
            final(self).offline_mode() == old(self).offline_mode(),
            final(self).cursor_row() == old(self).height() - GAME_HEIGHT,
            commands(r@) == logo_commands(old(self).height(), old(self).offline_mode()),
            replay(commands(r@), at_row(old(self).cursor_row() as int)) == at_row(
                final(self).cursor_row() as int,
            ),
            stays_within(
                commands(r@),
                at_row(old(self).cursor_row() as int),
                old(self).height() as int,
            ),
    {
        let mut text = TermFormatter::DefaultBold.as_str();
        text.append(Logo::get_logo(self.offline).as_str());
        text.append(TermFormatter::Clear.as_str().as_str());
        let mut cmds: Vec<TermCommand> = Vec::new();
        cmds.push(TermCommand::MoveUp(self.overall_height));
        cmds.push(TermCommand::Print(text));
        assert(commands(cmds@) =~= logo_commands(self.height(), self.offline));
        proof {
            lemma_logo_effect(self.offline);
        }
        self.row = self.overall_height - self.game_height;
        cmds
    }

    /// Repaints the board from any row at or below the top of the board zone:
    /// goes up to that top, clears everything below it (a stale board, prompt
    /// or error line), writes each row of cells, and shows the cursor again.
    /// The cursor is left on the prompt line under the board.
    pub fn draw_ui(&mut self, guess_list: &[Vec<Letter>; 6]) -> (r: Vec<TermCommand>)
        requires
            old(self).wf(),
            old(self).is_active(),
            old(self).height() - GAME_HEIGHT <= old(self).cursor_row(),
            drawable(board_view(*guess_list)),
        ensures
            final(self).wf(),
            final(self).is_active(),
            final(self).height() == old(self).height(),
            final(self).offline_mode() == old(self).offline_mode(),
            final(self).cursor_row() == old(self).height() - PROMPT_LINES,
            commands(r@) == board_commands(
                (old(self).cursor_row() - (old(self).height() - GAME_HEIGHT)) as nat,
                board_view(*guess_list),
            ),
            replay(commands(r@), at_row(old(self).cursor_row() as int)) == at_row(
                final(self).cursor_row() as int,
            ),
            stays_within(
                commands(r@),
                at_row(old(self).cursor_row() as int),
                old(self).height() as int,
            ),
    {
        let ghost board = board_view(*guess_list);
        let indent = ((self.overall_width - ROW_WIDTH) / 2) as usize;
        let up = self.row - (self.overall_height - self.game_height);
        let mut cmds: Vec<TermCommand> = Vec::new();
        cmds.push(TermCommand::MoveUp(up));
        cmds.push(TermCommand::ClearFromCursorDown);
        let mut i: usize = 0;
        while i < 6
            invariant
                i <= 6,
                indent == board_indent(),
                board == board_view(*guess_list),
                board.len() == 6,
                commands(cmds@) == seq![Command::MoveUp(up as nat), Command::ClearFromCursorDown]
                    + board_prints(board.subrange(0, i as int)),
            decreases 6 - i,
        {
            let text = Self::row_line(&guess_list[i], indent);
            assert(board[i as int] == guess_list[i as int]@);
            let ghost before = cmds@;
            cmds.push(TermCommand::Print(text));
            assert(board.subrange(0, i + 1).drop_last() =~= board.subrange(0, i as int));
            assert(commands(cmds@) =~= commands(before).push(
                Command::Print(row_text(board[i as int])),
            ));
            i = i + 1;
        }
        cmds.push(TermCommand::ShowCursor);
        assert(board.subrange(0, 6) =~= board);
        assert(commands(cmds@) =~= board_commands(up as nat, board));
        proof {
            lemma_board_effect(board, self.row as int, self.height() as int);
        }
        self.row = self.overall_height - PROMPT_LINES;
        cmds
    }

    /// The text of one board row.
    fn row_line(row: &Vec<Letter>, indent: usize) -> (r: String)
        requires
            indent == board_indent(),
        ensures
            r@ == row_text(row@),
    {
        let mut text = String::new();
        push_repeated(&mut text, ' ', indent);
        let mut j: usize = 0;
        while j < row.len()
            invariant
                j <= row@.len(),
                text@ == spaces(board_indent()) + cells_text(row@.subrange(0, j as int)),
            decreases row@.len() - j,
        {
            let letter = row[j];
            let ghost before = text@;
            text.append(TermFormatter::BlackBold.as_str().as_str());
            text.append(letter.get_ansi_color().as_str());
            push_char(&mut text, ' ');
            push_char(&mut text, letter.value);
            push_char(&mut text, ' ');
            text.append(TermFormatter::Clear.as_str().as_str());
            push_char(&mut text, ' ');
            assert(row@.subrange(0, j + 1).drop_last() =~= row@.subrange(0, j as int));
            assert(row@.subrange(0, j + 1).last() == letter);
            assert(text@ =~= before + cell_text(letter));
            j = j + 1;
        }
        assert(row@.subrange(0, row@.len() as int) =~= row@);
        push_repeated(&mut text, '\n', 2);
        text
    }

    /// Writes one line of text under the board (a prompt, or the result of
    /// the game).
    pub fn draw_line(&mut self, text: &str) -> (r: Vec<TermCommand>)
        requires
            old(self).wf(),
            old(self).is_active(),
            newlines(text@) == 0,
            old(self).cursor_row() < old(self).height(),
        ensures
            final(self).wf(),
            final(self).is_active(),
            final(self).height() == old(self).height(),
            final(self).offline_mode() == old(self).offline_mode(),
            final(self).cursor_row() == old(self).cursor_row() + 1,
            commands(r@) == line_commands(text@),
            replay(commands(r@), at_row(old(self).cursor_row() as int)) == at_row(
                final(self).cursor_row() as int,
            ),
            stays_within(
                commands(r@),
                at_row(old(self).cursor_row() as int),
                old(self).height() as int,
            ),
    {
        let mut line = String::from_str(text);
        push_char(&mut line, '\n');
        let ghost c = Command::Print(text@.push('\n'));
        proof {
            let nl = seq!['\n'];
            assert(nl.drop_last() =~= Seq::<char>::empty());
            assert(nl.last() == '\n');
            assert(nl.len() == 1);
            assert(newlines(nl.drop_last()) == 0);
            assert(newlines(nl) == 1);
            lemma_newlines_concat(text@, nl);
            assert(text@.push('\n') =~= text@ + nl);
            lemma_replay_one(c, at_row(self.row as int), self.height() as int);
        }
        let mut cmds: Vec<TermCommand> = Vec::new();
        cmds.push(TermCommand::Print(line));
        assert(commands(cmds@) =~= line_commands(text@));
        self.row = self.row + 1;
        cmds
    }

    /// Notes that the player's input line, echoed by the terminal, moved the
    /// cursor down one line.
    pub fn note_input_line(&mut self)
        requires
            old(self).wf(),
            old(self).is_active(),
            old(self).cursor_row() < old(self).height(),
        ensures
            final(self).wf(),
            final(self).is_active(),
            final(self).height() == old(self).height(),
            final(self).offline_mode() == old(self).offline_mode(),
            final(self).cursor_row() == old(self).cursor_row() + 1,
    {
        self.row = self.row + 1;
    }

    /// Replaces the prompt and the rejected input with `error_msg` in red. The
    /// next `draw_ui` clears it.
    pub fn draw_input_error(&mut self, error_msg: &str) -> (r: Vec<TermCommand>)
        requires
            old(self).wf(),
            old(self).is_active(),
            old(self).cursor_row() >= PROMPT_LINES,
            old(self).cursor_row() - PROMPT_LINES + newlines(error_msg@) <= old(self).height(),
        ensures
            final(self).wf(),
            final(self).is_active(),
            final(self).height() == old(self).height(),
            final(self).offline_mode() == old(self).offline_mode(),
            final(self).cursor_row() == old(self).cursor_row() - PROMPT_LINES + newlines(
                error_msg@,
            ),
            commands(r@) == error_commands(error_msg@),
            replay(commands(r@), at_row(old(self).cursor_row() as int)) == at_row(
                final(self).cursor_row() as int,
            ),
            stays_within(
                commands(r@),
                at_row(old(self).cursor_row() as int),
                old(self).height() as int,
            ),
    {
        let msg_lines = count_newlines(error_msg);
        let mut text = TermFormatter::RedFg.as_str();
        text.append(error_msg);
        text.append(TermFormatter::Clear.as_str().as_str());
        let ghost red = style_code(TermFormatter::RedFg);
        let ghost clear = style_code(TermFormatter::Clear);
        proof {
            lemma_style_no_newline(TermFormatter::RedFg);
            lemma_style_no_newline(TermFormatter::Clear);
            lemma_newlines_concat(red, error_msg@);
            lemma_newlines_concat(red + error_msg@, clear);
            lemma_three(
                Command::MoveUp(PROMPT_LINES as nat),
                Command::ClearFromCursorDown,
                Command::Print(red + error_msg@ + clear),
                at_row(self.row as int),
                self.height() as int,
            );
        }
        let mut cmds: Vec<TermCommand> = Vec::new();
        cmds.push(TermCommand::MoveUp(PROMPT_LINES));
        cmds.push(TermCommand::ClearFromCursorDown);
        cmds.push(TermCommand::Print(text));
        assert(commands(cmds@) =~= error_commands(error_msg@));
        self.row = self.row - PROMPT_LINES + msg_lines as u16;
        cmds
    }

    /// Tears the canvas down: goes up to its top, blanks it out with line
    /// breaks, and returns the cursor to where it was before the canvas was
    /// set up. No operation is allowed afterwards.
    pub fn terminate_ui(&mut self) -> (r: Vec<TermCommand>)
        requires
            old(self).wf(),
            old(self).is_active(),
        ensures
            final(self).wf(),
            !final(self).is_active(),
            final(self).height() == old(self).height(),
            final(self).offline_mode() == old(self).offline_mode(),
            final(self).cursor_row() == 0,
            commands(r@) == teardown_commands(old(self).cursor_row(), old(self).height()),
            replay(commands(r@), at_row(old(self).cursor_row() as int)) == at_row(0),
            stays_within(
                commands(r@),
                at_row(old(self).cursor_row() as int),
                old(self).height() as int,
            ),
    {
        let mut blank = String::new();
        push_repeated(&mut blank, '\n', self.overall_height as usize);
        let mut cmds: Vec<TermCommand> = Vec::new();
        cmds.push(TermCommand::MoveUp(self.row));
        cmds.push(TermCommand::Print(blank));
        cmds.push(TermCommand::RestorePosition);
        assert(commands(cmds@) =~= teardown_commands(self.cursor_row(), self.height()));
        proof {
            lemma_teardown_effect(self.cursor_row(), self.height());
        }
        self.row = 0;
        self.active = false;
        cmds
    }
}

} // verus!
