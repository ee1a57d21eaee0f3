//! The front end's share of the rules: which command a line holds, what a
//! `go` line asks for, how much time a move may take, and what a `position`
//! line sets up.
//!
//! Lines come here cut into words at white space. Reading and writing them
//! is left to the program around the library.

use vstd::prelude::*;
use vstd::string::{StrSliceExecFns, StringExecFns};
use crate::driver::IterationReport;
use crate::moves::{move_of_text, Move};
use crate::placement::Placement;
use crate::position::{
    initial_placement,
    legal_moves_of,
    placement_after,
    position_of_fen,
    zobrist_of,
    Position,
};

verus! {

/// The commands of the protocol.
#[derive(Clone, Copy, Debug, PartialEq, Eq, Structural)]
pub enum Command {
    /// `uci`: the engine names itself.
    Uci,
    /// `isready`: the engine says that it is ready.
    IsReady,
    /// `ucinewgame`: nothing to do.
    NewGame,
    /// `position`: a position is set up.
    Position,
    /// `go`: a search is started.
    Go,
    /// `quit`: the program ends.
    Quit,
    /// Anything else.
    Unknown,
}

/// The words of a line as texts.
pub open spec fn texts(words: Seq<String>) -> Seq<Seq<char>> {
    Seq::new(words.len(), |i: int| words[i]@)
}

/// The command that a line holds: its first word decides.
pub open spec fn command_of(words: Seq<Seq<char>>) -> Command {
    if words.len() == 0 {
        Command::Unknown
    } else if words[0] == "uci"@ {
        Command::Uci
    } else if words[0] == "isready"@ {
        Command::IsReady
    } else if words[0] == "ucinewgame"@ {
        Command::NewGame
    } else if words[0] == "position"@ {
        Command::Position
    } else if words[0] == "go"@ {
        Command::Go
    } else if words[0] == "quit"@ {
        Command::Quit
    } else {
        Command::Unknown
    }
}

/// Tells whether a word of a line is the given word.
fn is_word(word: &String, given: &str) -> (b: bool)
    ensures
        b == (word@ == given@),
{
    let other = String::from_str(given);
    *word == other
}

/// Tells which command a line holds.
pub fn classify(words: &Vec<String>) -> (c: Command)
    ensures
        c == command_of(texts(words@)),
{
    if words.len() == 0 {
        return Command::Unknown;
    }
    let first = &words[0];
    if is_word(first, "uci") {
        Command::Uci
    } else if is_word(first, "isready") {
        Command::IsReady
    } else if is_word(first, "ucinewgame") {
        Command::NewGame
    } else if is_word(first, "position") {
        Command::Position
    } else if is_word(first, "go") {
        Command::Go
    } else if is_word(first, "quit") {
        Command::Quit
    } else {
        Command::Unknown
    }
}

/// The value of a decimal digit, if the character is one.
pub open spec fn digit_of(c: char) -> Option<u8> {
    if c == '0' {
        Some(0)
    } else if c == '1' {
        Some(1)
    } else if c == '2' {
        Some(2)
    } else if c == '3' {
        Some(3)
    } else if c == '4' {
        Some(4)
    } else if c == '5' {
        Some(5)
    } else if c == '6' {
        Some(6)
    } else if c == '7' {
        Some(7)
    } else if c == '8' {
        Some(8)
    } else if c == '9' {
        Some(9)
    } else {
        None
    }
}

/// Whether the text is made of decimal digits alone.
pub open spec fn all_digits(text: Seq<char>) -> bool {
    forall|i: int| 0 <= i < text.len() ==> digit_of(#[trigger] text[i]) is Some
}

/// The number that a text of decimal digits writes.
pub open spec fn decimal_value(text: Seq<char>) -> nat
    decreases text.len(),
{
    if text.len() == 0 {
        0
    } else {
        10 * decimal_value(text.drop_last()) + match digit_of(text.last()) {
            Some(d) => d as nat,
            None => 0,
        }
    }
}

/// The number that a text writes, if it is one or more decimal digits that
/// write a number below 2^64.
pub open spec fn number_of(text: Seq<char>) -> Option<u64> {
    if text.len() > 0 && all_digits(text) && decimal_value(text) <= u64::MAX {
        Some(decimal_value(text) as u64)
    } else {
        None
    }
}

/// A longer text of digits does not write a smaller number.
proof fn lemma_decimal_value_grows(text: Seq<char>, n: int)
    requires
        0 <= n <= text.len(),
    ensures
        decimal_value(text.take(n)) <= decimal_value(text),
    decreases text.len(),
{
    if n < text.len() {
        lemma_decimal_value_grows(text.drop_last(), n);
        assert(text.drop_last().take(n) =~= text.take(n));
    } else {
        assert(text.take(n) =~= text);
    }
}

fn digit_value(c: char) -> (d: Option<u8>)
    ensures
        d == digit_of(c),
{
    if c == '0' {
        Some(0)
    } else if c == '1' {
        Some(1)
    } else if c == '2' {
        Some(2)
    } else if c == '3' {
        Some(3)
    } else if c == '4' {
        Some(4)
    } else if c == '5' {
        Some(5)
    } else if c == '6' {
        Some(6)
    } else if c == '7' {
        Some(7)
    } else if c == '8' {
        Some(8)
    } else if c == '9' {
        Some(9)
    } else {
        None
    }
}

/// Reads a number: one or more decimal digits that write a number below
/// 2^64. Any other text gives nothing.
pub fn parse_number(text: &str) -> (r: Option<u64>)
    ensures
        r == number_of(text@),
{
    let n = text.unicode_len();
    if n == 0 {
        return None;
    }
    let mut value: u64 = 0;
    let mut i: usize = 0;
    while i < n
        invariant
            i <= n,
            n == text@.len(),
            all_digits(text@.take(i as int)),
            value == decimal_value(text@.take(i as int)),
        decreases n - i,
    {
        let c = text.get_char(i);
        proof {
            let next = text@.take(i + 1);
            assert(next.drop_last() =~= text@.take(i as int));
            assert(next.last() == c);
        }
        match digit_value(c) {
            Some(d) => {
                if value > (u64::MAX - d as u64) / 10 {
                    proof {
                        lemma_decimal_value_grows(text@, i + 1);
                    }
                    return None;
                }
                value = 10 * value + d as u64;
                proof {
                    let next = text@.take(i + 1);
                    assert forall|k: int| 0 <= k < next.len() implies digit_of(
                        #[trigger] next[k],
                    ) is Some by {
                        if k < i {
                            assert(next[k] == text@.take(i as int)[k]);
                        }
                    }
                }
            },
            None => {
                assert(digit_of(text@[i as int]) is None);
                return None;
            },
        }
        i = i + 1;
    }
    proof {
        assert(text@.take(i as int) =~= text@);
    }
    Some(value)
}

/// The character of a decimal digit.
pub open spec fn digit_char(d: int) -> char {
    if d == 0 {
        '0'
    } else if d == 1 {
        '1'
    } else if d == 2 {
        '2'
    } else if d == 3 {
        '3'
    } else if d == 4 {
        '4'
    } else if d == 5 {
        '5'
    } else if d == 6 {
        '6'
    } else if d == 7 {
        '7'
    } else if d == 8 {
        '8'
    } else {
        '9'
    }
}

/// A number written in decimal digits, without leading zeros.
pub open spec fn decimal_text(n: nat) -> Seq<char>
    decreases n,
{
    if n < 10 {
        seq![digit_char(n as int)]
    } else {
        decimal_text(n / 10).push(digit_char((n % 10) as int))
    }
}

/// A score written in decimal digits, behind a minus sign if it is below 0.
pub open spec fn score_text(score: int) -> Seq<char> {
    if score < 0 {
        seq!['-'] + decimal_text((-score) as nat)
    } else {
        decimal_text(score as nat)
    }
}

/// A number that is written and read again is the same number.
pub proof fn lemma_number_reads_back(n: nat)
    ensures
        decimal_text(n).len() > 0,
        all_digits(decimal_text(n)),
        decimal_value(decimal_text(n)) == n,
        n <= u64::MAX ==> number_of(decimal_text(n)) == Some(n as u64),
    decreases n,
{
    if n >= 10 {
        lemma_number_reads_back(n / 10);
        let front = decimal_text(n / 10);
        let text = decimal_text(n);
        assert(text.drop_last() =~= front);
        assert(digit_of(text.last()) == Some((n % 10) as u8));
        assert forall|i: int| 0 <= i < text.len() implies digit_of(#[trigger] text[i]) is Some by {
            if i < front.len() {
                assert(text[i] == front[i]);
            }
        }
        assert(decimal_value(text) == 10 * decimal_value(front) + n % 10);
    } else {
        let text = decimal_text(n);
        assert(text.drop_last() =~= Seq::<char>::empty());
        assert(digit_of(text.last()) == Some(n as u8));
        assert(decimal_value(text.drop_last()) == 0);
        assert(decimal_value(text) == n);
    }
}

fn digit_name(d: u64) -> (name: &'static str)
    requires
        d < 10,
    ensures
        name@ == seq![digit_char(d as int)],
{
    proof {
        reveal_strlit("0");
        reveal_strlit("1");
        reveal_strlit("2");
        reveal_strlit("3");
        reveal_strlit("4");
        reveal_strlit("5");
        reveal_strlit("6");
        reveal_strlit("7");
        reveal_strlit("8");
        reveal_strlit("9");
    }
    let name = if d == 0 {
        "0"
    } else if d == 1 {
        "1"
    } else if d == 2 {
        "2"
    } else if d == 3 {
        "3"
    } else if d == 4 {
        "4"
    } else if d == 5 {
        "5"
    } else if d == 6 {
        "6"
    } else if d == 7 {
        "7"
    } else if d == 8 {
        "8"
    } else {
        "9"
    };
    assert(name@ =~= seq![digit_char(d as int)]);
    name
}

/// Writes a number in decimal digits at the end of a text.
pub fn write_number(text: &mut String, n: u64)
    ensures
        final(text)@ == old(text)@ + decimal_text(n as nat),
    decreases n,
{
    if n >= 10 {
        write_number(text, n / 10);
    }
    text.append(digit_name(n % 10));
    assert(text@ =~= old(text)@ + decimal_text(n as nat));
}

/// Writes a score in decimal digits at the end of a text, behind a minus
/// sign if it is below 0.
pub fn write_score(text: &mut String, score: i32)
    ensures
        final(text)@ == old(text)@ + score_text(score as int),
{
    proof {
        reveal_strlit("-");
    }
    if score < 0 {
        text.append("-");
        let size: u64 = if score == i32::MIN {
            2_147_483_648
        } else {
            (-score) as u64
        };
        write_number(text, size);
        assert(text@ =~= old(text)@ + score_text(score as int));
    } else {
        write_number(text, score as u64);
    }
}

/// The line that reports a completed depth.
pub open spec fn info_text(report: IterationReport) -> Seq<char> {
    "info score "@ + score_text(report.score as int) + " nodes "@ + decimal_text(
        report.nodes as nat,
    ) + " depth "@ + decimal_text(report.depth as nat)
}

/// The line that names the move to play.
pub open spec fn bestmove_text(m: Move) -> Seq<char> {
    "bestmove "@ + crate::moves::move_text(m)
}

/// Writes the line that reports a completed depth:
/// `info score <centipawns> nodes <nodes> depth <depth>`.
pub fn info_line(report: &IterationReport) -> (line: String)
    ensures
        line@ == info_text(*report),
{
    let mut line = String::from_str("info score ");
    write_score(&mut line, report.score);
    line.append(" nodes ");
    write_number(&mut line, report.nodes);
    line.append(" depth ");
    write_number(&mut line, report.depth as u64);
    line
}

/// Writes the line that names the move to play: `bestmove <move>`.
pub fn bestmove_line(m: &Move) -> (line: String)
    requires
        m.wf(),
    ensures
        line@ == bestmove_text(*m),
{
    let mut line = String::from_str("bestmove ");
    let text = m.to_uci();
    line.append(text.as_str());
    line
}

/// Where `word` stands first in a line, counted from `from`; the number of
/// words if it stands nowhere.
pub open spec fn word_index(words: Seq<Seq<char>>, word: Seq<char>, from: int) -> int
    decreases words.len() - from,
{
    if from < 0 || from >= words.len() {
        words.len() as int
    } else if words[from] == word {
        from
    } else {
        word_index(words, word, from + 1)
    }
}

/// The number behind the first `word` of a line, if the word stands there
/// and a number follows it.
pub open spec fn argument_of(words: Seq<Seq<char>>, word: Seq<char>) -> Option<u64> {
    let at = word_index(words, word, 1);
    if at + 1 < words.len() {
        number_of(words[at + 1])
    } else {
        None
    }
}

/// What a `go` line asks for: the time left on White's clock and on Black's,
/// and the time to spend on this move, each in milliseconds.
#[derive(Clone, Copy, Debug, PartialEq, Eq, Structural)]
pub struct GoArgs {
    pub wtime: Option<u64>,
    pub btime: Option<u64>,
    pub movetime: Option<u64>,
}

/// What a `go` line asks for.
pub open spec fn go_args_of(words: Seq<Seq<char>>) -> GoArgs {
    GoArgs {
        wtime: argument_of(words, "wtime"@),
        btime: argument_of(words, "btime"@),
        movetime: argument_of(words, "movetime"@),
    }
}

/// Finds where `word` stands first in a line, counted from `from`.
fn find_word(words: &Vec<String>, word: &str, from: usize) -> (at: usize)
    ensures
        at == word_index(texts(words@), word@, from as int),
        from <= at || at == words@.len(),
        at <= words@.len(),
{
    let mut i = from;
    while i < words.len()
        invariant
            from <= i,
            word_index(texts(words@), word@, from as int) == word_index(
                texts(words@),
                word@,
                i as int,
            ),
        decreases words.len() - i,
    {
        if is_word(&words[i], word) {
            return i;
        }
        i = i + 1;
    }
    words.len()
}

/// Reads the number behind the first `word` of a line.
fn argument(words: &Vec<String>, word: &str) -> (r: Option<u64>)
    ensures
        r == argument_of(texts(words@), word@),
{
    let at = find_word(words, word, 1);
    if at < words.len() && at + 1 < words.len() {
        parse_number(words[at + 1].as_str())
    } else {
        None
    }
}

/// Reads what a `go` line asks for.
pub fn parse_go(words: &Vec<String>) -> (args: GoArgs)
    ensures
        args == go_args_of(texts(words@)),
{
    GoArgs {
        wtime: argument(words, "wtime"),
        btime: argument(words, "btime"),
        movetime: argument(words, "movetime"),
    }
}

/// The time for a move when a `go` line names none, in milliseconds.
pub const DEFAULT_SLICE: u64 = 10_000;

/// The number of moves that the time left is shared among: what is left of
/// 60 moves, then what is left of 150, and 1 from there on.
pub open spec fn moves_to_go(moves_made: u16) -> int {
    if moves_made < 60 {
        60 - moves_made
    } else if moves_made < 150 {
        150 - moves_made
    } else {
        1
    }
}

/// A time that was given: a time of 0 counts as not given.
pub open spec fn given(time: Option<u64>) -> bool {
    time matches Some(t) && t > 0
}

/// The time for the next move, in milliseconds: the time to spend on the
/// move where the line names one; else the time left on the clock of the side
/// to move, shared among the moves to go; else the default.
pub open spec fn time_slice_of(args: GoArgs, white_to_move: bool, moves_made: u16) -> int {
    let clock = if white_to_move {
        args.wtime
    } else {
        args.btime
    };
    if given(args.movetime) {
        args.movetime->0 as int
    } else if given(clock) {
        clock->0 as int / moves_to_go(moves_made)
    } else {
        DEFAULT_SLICE as int
    }
}

/// Computes the time for the next move, in milliseconds.
pub fn time_slice(args: &GoArgs, white_to_move: bool, moves_made: u16) -> (slice: u64)
    ensures
        slice == time_slice_of(*args, white_to_move, moves_made),
{
    let clock = if white_to_move {
        args.wtime
    } else {
        args.btime
    };
    match args.movetime {
        Some(t) => {
            if t > 0 {
                return t;
            }
        },
        None => {},
    }
    match clock {
        Some(t) => {
            if t > 0 {
                let share: u64 = if moves_made < 60 {
                    (60 - moves_made) as u64
                } else if moves_made < 150 {
                    (150 - moves_made) as u64
                } else {
                    1
                };
                return t / share;
            }
        },
        None => {},
    }
    DEFAULT_SLICE
}

/// The move to play when the time is up: the best move of the last report
/// if there is a report and its move is legal, else the first legal move,
/// else the empty move.
pub open spec fn move_to_play(p: Placement, last: Option<IterationReport>) -> Move {
    if last is Some && legal_moves_of(p).contains(last->0.best_move) {
        last->0.best_move
    } else if legal_moves_of(p).len() > 0 {
        legal_moves_of(p)[0]
    } else {
        Move::none()
    }
}

/// Picks the move to play when the time is up.
pub fn choose_move(pos: &Position, last: &Option<IterationReport>) -> (m: Move)
    requires
        pos@.playable(),
    ensures
        m == move_to_play(pos@, *last),
        m.wf(),
{
    let moves = pos.legal_moves();
    match last {
        Some(report) => {
            let mut i: usize = 0;
            while i < moves.len()
                invariant
                    i <= moves.len(),
                    moves@ == legal_moves_of(pos@),
                    *last == Some(*report),
                    forall|k: int| 0 <= k < i ==> moves@[k] != report.best_move,
                    forall|k: int| 0 <= k < moves@.len() ==> (#[trigger] moves@[k]).wf(),
                decreases moves.len() - i,
            {
                if moves[i] == report.best_move {
                    return report.best_move;
                }
                i = i + 1;
            }
        },
        None => {},
    }
    if moves.len() > 0 {
        moves[0]
    } else {
        Move::empty()
    }
}

/// A game as the front end keeps it.
pub struct GameView {
    /// The position on the board.
    pub placement: Placement,
    /// The keys of the positions that the game went through before.
    pub history: Seq<u64>,
    /// The number of moves made since the game was set up.
    pub moves_made: u16,
}

/// The game right after it was set up on `p`.
pub open spec fn opening(p: Placement) -> GameView {
    GameView { placement: p, history: Seq::empty(), moves_made: 0 }
}

/// The game after `m`, if `m` is a legal move that leads to a playable
/// position.
pub open spec fn played(g: GameView, m: Move) -> Option<GameView> {
    if legal_moves_of(g.placement).contains(m) && placement_after(g.placement, m).playable() {
        Some(
            GameView {
                placement: placement_after(g.placement, m),
                history: g.history.push(zobrist_of(g.placement)),
                moves_made: if g.moves_made < u16::MAX {
                    (g.moves_made + 1) as u16
                } else {
                    g.moves_made
                },
            },
        )
    } else {
        None
    }
}

/// The game after the moves that the texts name were made in turn, if every
/// text names a move and every move can be made.
pub open spec fn replayed(g: GameView, moves: Seq<Seq<char>>) -> Option<GameView>
    decreases moves.len(),
{
    if moves.len() == 0 {
        Some(g)
    } else {
        match (replayed(g, moves.drop_last()), move_of_text(moves.last())) {
            (Some(before), Some(m)) => played(before, m),
            _ => None,
        }
    }
}

/// The fields put together, with one blank between neighbors.
pub open spec fn joined(fields: Seq<Seq<char>>) -> Seq<char>
    decreases fields.len(),
{
    if fields.len() == 0 {
        Seq::empty()
    } else if fields.len() == 1 {
        fields[0]
    } else {
        joined(fields.drop_last()) + seq![' '] + fields.last()
    }
}

/// The texts of the moves of a `position` line whose setup ends before word
/// `at`: none if the line ends there, and the words behind `moves` if that
/// is the word at `at`. Any other word there spoils the line.
pub open spec fn moves_of(words: Seq<Seq<char>>, at: int) -> Option<Seq<Seq<char>>> {
    if at >= words.len() {
        Some(Seq::empty())
    } else if words[at] == "moves"@ {
        Some(words.subrange(at + 1, words.len() as int))
    } else {
        None
    }
}

/// The placement that a `position` line sets up before its moves, and the
/// word at which the setup ends: the start of a game for `startpos`, and
/// what the six fields behind `fen` describe.
pub open spec fn setup_of(words: Seq<Seq<char>>) -> Option<(Placement, int)> {
    if words.len() >= 2 && words[1] == "startpos"@ {
        Some((initial_placement(), 2))
    } else if words.len() >= 8 && words[1] == "fen"@ {
        match position_of_fen(joined(words.subrange(2, 8))) {
            Some(p) => Some((p, 8)),
            None => None,
        }
    } else {
        None
    }
}

/// The game that a `position` line sets up, if the line is in order: it
/// names a setup, the setup can be read, and every move behind it can be
/// made.
pub open spec fn position_of(words: Seq<Seq<char>>) -> Option<GameView> {
    match setup_of(words) {
        Some((p, at)) => match moves_of(words, at) {
            Some(moves) => replayed(opening(p), moves),
            None => None,
        },
        None => None,
    }
}

/// The game that the front end keeps between lines: the position, the keys
/// of the positions before it, and the number of moves made.
pub struct Game {
    position: Position,
    history: Vec<u64>,
    moves_made: u16,
}

impl View for Game {
    type V = GameView;

    closed spec fn view(&self) -> GameView {
        GameView {
            placement: self.position@,
            history: self.history@,
            moves_made: self.moves_made,
        }
    }
}

impl Game {
    /// The position of the game is playable.
    pub closed spec fn wf(&self) -> bool {
        self.position@.playable()
    }

    /// A game at its start.
    pub fn new() -> (game: Game)
        ensures
            game.wf(),
            game@ == opening(initial_placement()),
    {
        Game { position: Position::startpos(), history: Vec::new(), moves_made: 0 }
    }

    /// The position on the board.
    pub fn position(&self) -> (pos: Position)
        requires
            self.wf(),
        ensures
            pos@ == self@.placement,
            pos@.playable(),
    {
        self.position
    }

    /// The keys of the positions that the game went through before.
    pub fn history(&self) -> (keys: &Vec<u64>)
        ensures
            keys@ == self@.history,
    {
        &self.history
    }

    /// The number of moves made since the game was set up.
    pub fn moves_made(&self) -> (n: u16)
        ensures
            n == self@.moves_made,
    {
        self.moves_made
    }

    /// Makes a move, if it is a legal move that leads to a playable
    /// position, and tells whether it did.
    pub fn play(&mut self, m: Move) -> (done: bool)
        requires
            old(self).wf(),
        ensures
            final(self).wf(),
            done == played(old(self)@, m) is Some,
            done ==> Some(final(self)@) == played(old(self)@, m),
            !done ==> final(self)@ == old(self)@,
    {
        match self.position.try_move(m) {
            Some(next) => {
                self.history.push(self.position.key());
                self.position = next;
                if self.moves_made < u16::MAX {
                    self.moves_made = self.moves_made + 1;
                }
                true
            },
            None => false,
        }
    }

    /// Sets up what a `position` line says, and tells whether it did. A line
    /// that is not in order leaves the game as it was.
    pub fn set_position(&mut self, words: &Vec<String>) -> (done: bool)
        requires
            old(self).wf(),
        ensures
            final(self).wf(),
            done == position_of(texts(words@)) is Some,
            done ==> Some(final(self)@) == position_of(texts(words@)),
            !done ==> final(self)@ == old(self)@,
    {
        let ghost line = texts(words@);
        let n = words.len();
        let mut at: usize = 2;
        let start: Position;
        if n >= 2 && is_word(&words[1], "startpos") {
            start = Position::startpos();
        } else if n >= 8 && is_word(&words[1], "fen") {
            let fen = join_fields(words, 2, 8);
            match Position::from_fen(fen.as_str()) {
                Some(pos) => {
                    start = pos;
                    at = 8;
                },
                None => {
                    return false;
                },
            }
        } else {
            return false;
        }
        if at < n && !is_word(&words[at], "moves") {
            return false;
        }
        let mut game = Game { position: start, history: Vec::new(), moves_made: 0 };
        if at >= n {
            *self = game;
            return true;
        }
        let first = at + 1;
        let ghost moves = line.subrange(first as int, n as int);
        let mut i: usize = first;
        while i < n
            invariant
                first <= i <= n,
                n == words@.len(),
                line == texts(words@),
                moves == line.subrange(first as int, n as int),
                game.wf(),
                self.wf(),
                self@ == old(self)@,
                position_of(line) == replayed(opening(start@), moves),
                replayed(opening(start@), moves.take(i - first)) == Some(game@),
            decreases n - i,
        {
            proof {
                let next = moves.take(i - first + 1);
                assert(next.drop_last() =~= moves.take(i - first));
                assert(next.last() == words@[i as int]@);
                if i + 1 < n {
                    lemma_replay_fails_on(opening(start@), moves, i - first + 1);
                } else {
                    assert(next =~= moves);
                }
            }
            match Move::from_uci(words[i].as_str()) {
                Some(m) => {
                    if !game.play(m) {
                        return false;
                    }
                },
                None => {
                    return false;
                },
            }
            i = i + 1;
        }
        proof {
            assert(moves.take(i - first) =~= moves);
        }
        *self = game;
        true
    }
}

/// Where a part of the moves cannot be replayed, the moves cannot.
proof fn lemma_replay_fails_on(g: GameView, moves: Seq<Seq<char>>, n: int)
    requires
        0 <= n <= moves.len(),
    ensures
        replayed(g, moves.take(n)) is None ==> replayed(g, moves) is None,
    decreases moves.len(),
{
    if n < moves.len() {
        lemma_replay_fails_on(g, moves.drop_last(), n);
        assert(moves.drop_last().take(n) =~= moves.take(n));
    } else {
        assert(moves.take(n) =~= moves);
    }
}

/// Puts the words from `from` up to `to` together, with one blank between
/// neighbors.
fn join_fields(words: &Vec<String>, from: usize, to: usize) -> (text: String)
    requires
        from < to <= words@.len(),
    ensures
        text@ == joined(texts(words@).subrange(from as int, to as int)),
{
    proof {
        reveal_strlit(" ");
    }
    let mut text = String::new();
    let mut i = from;
    while i < to
        invariant
            from <= i <= to <= words@.len(),
            " "@ == seq![' '],
            text@ == joined(texts(words@).subrange(from as int, i as int)),
        decreases to - i,
    {
        proof {
            let next = texts(words@).subrange(from as int, i + 1);
            assert(next.drop_last() =~= texts(words@).subrange(from as int, i as int));
            assert(next.last() == words@[i as int]@);
        }
        if i > from {
            text.append(" ");
        }
        text.append(words[i].as_str());
        proof {
            let next = texts(words@).subrange(from as int, i + 1);
            if i == from {
                assert(text@ =~= next[0]);
            }
        }
        i = i + 1;
    }
    text
}

} // verus!
