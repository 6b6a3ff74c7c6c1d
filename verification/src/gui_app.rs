//! The click-to-move rules of the graphical front end: selecting a piece of the
//! side to move, then clicking a destination moves it there (castling when a king
//! moves two files), with a status line after each click. Moves are not checked
//! for legality.

use vstd::prelude::*;
use vstd::string::StringExecFns;

use crate::ui_board::{
    castle_board, castle_outcome, coord_of, lemma_moves_add_no_piece, move_board, move_outcome,
    occupied_count, sq_to_coord, Piece, PieceKind, Side, UiBoard,
};

verus! {

/// The glyph of a piece: the Unicode chess symbols, hollow for White, solid for Black.
pub open spec fn glyph(p: Piece) -> Seq<char> {
    match (p.side, p.kind) {
        (Side::White, PieceKind::King) => "♔"@,
        (Side::White, PieceKind::Queen) => "♕"@,
        (Side::White, PieceKind::Rook) => "♖"@,
        (Side::White, PieceKind::Bishop) => "♗"@,
        (Side::White, PieceKind::Knight) => "♘"@,
        (Side::White, PieceKind::Pawn) => "♙"@,
        (Side::Black, PieceKind::King) => "♚"@,
        (Side::Black, PieceKind::Queen) => "♛"@,
        (Side::Black, PieceKind::Rook) => "♜"@,
        (Side::Black, PieceKind::Bishop) => "♝"@,
        (Side::Black, PieceKind::Knight) => "♞"@,
        (Side::Black, PieceKind::Pawn) => "♟"@,
    }
}

/// The name of square (file, rank): its file letter from 'a' and its rank digit from '1'.
pub open spec fn square_name(file: i32, rank: i32) -> Seq<char> {
    seq![(97 + (file as u8)) as char, (49 + (rank as u8)) as char]
}

/// The name of square index `sq`.
pub open spec fn sq_name_of(sq: usize) -> Seq<char> {
    square_name(coord_of(sq).0, coord_of(sq).1)
}

/// Appends `c` to `s`: `String::push` of std.
#[verifier::external_body]
fn push_char(s: &mut String, c: char)
    ensures
        final(s)@ == old(s)@.push(c),
{
    s.push(c);
}

/// The glyph of a piece.
pub fn piece_glyph(p: Piece) -> (g: &'static str)
    ensures
        g@ == glyph(p),
{
    match (p.side, p.kind) {
        (Side::White, PieceKind::King) => "♔",
        (Side::White, PieceKind::Queen) => "♕",
        (Side::White, PieceKind::Rook) => "♖",
        (Side::White, PieceKind::Bishop) => "♗",
        (Side::White, PieceKind::Knight) => "♘",
        (Side::White, PieceKind::Pawn) => "♙",
        (Side::Black, PieceKind::King) => "♚",
        (Side::Black, PieceKind::Queen) => "♛",
        (Side::Black, PieceKind::Rook) => "♜",
        (Side::Black, PieceKind::Bishop) => "♝",
        (Side::Black, PieceKind::Knight) => "♞",
        (Side::Black, PieceKind::Pawn) => "♟",
    }
}

/// The name of square (file, rank), such as "e4".
pub fn sq_name(file: i32, rank: i32) -> (s: String)
    requires
        97 + (file as u8) <= 255,
        49 + (rank as u8) <= 255,
    ensures
        s@ == square_name(file, rank),
{
    let f = (97u8 + file as u8) as char;
    let r = (49u8 + rank as u8) as char;
    let mut s = String::new();
    push_char(&mut s, f);
    push_char(&mut s, r);
    assert(s@ =~= square_name(file, rank));
    s
}

/// `text` followed by `line` on a line of its own: `line` alone when `text` is
/// empty, otherwise `text`, a newline and `line`.
pub open spec fn then_line(text: Seq<char>, line: Seq<char>) -> Seq<char> {
    if text.len() == 0 {
        line
    } else {
        text + "\n"@ + line
    }
}

/// The state of the front end as values: the board, the side to move, the
/// selected square, the moves made so far (one line each, separated by newlines),
/// the status text (the moves made so far, then on a line of its own the latest
/// note, if there is one since the last move) and whether the board is drawn flipped.
pub struct GuiView {
    pub board: Seq<Option<Piece>>,
    pub side_to_move: Side,
    pub selected: Option<usize>,
    pub history: Seq<char>,
    pub status: Seq<char>,
    pub flip_board: bool,
}

impl GuiView {
    /// The board has its 64 squares and a selected square is one of them.
    pub open spec fn wf(self) -> bool {
        &&& self.board.len() == 64
        &&& self.selected matches Some(s) ==> s < 64
    }

    /// The same state with the status showing the move history and then `note`.
    pub open spec fn with_note(self, note: Seq<char>) -> GuiView {
        GuiView {
            board: self.board,
            side_to_move: self.side_to_move,
            selected: self.selected,
            history: self.history,
            status: then_line(self.history, note),
            flip_board: self.flip_board,
        }
    }

    /// The same state with square `sq` selected and the note naming the piece on it.
    pub open spec fn selecting(self, sq: usize, piece: Piece) -> GuiView {
        GuiView {
            board: self.board,
            side_to_move: self.side_to_move,
            selected: Some(sq),
            history: self.history,
            status: then_line(self.history, "Selected "@ + glyph(piece) + "."@),
            flip_board: self.flip_board,
        }
    }

    /// The same state with the selection cleared.
    pub open spec fn cleared(self) -> GuiView {
        GuiView {
            board: self.board,
            side_to_move: self.side_to_move,
            selected: None,
            history: self.history,
            status: then_line(self.history, "Selection cleared."@),
            flip_board: self.flip_board,
        }
    }
}

/// The outcome of moving from `from` to `to` on the front end's board: castling
/// when it is a castling move, a direct move when it is no castling move.
pub open spec fn attempt_outcome(b: Seq<Option<Piece>>, from: usize, to: usize) -> Result<(), Seq<char>> {
    match castle_outcome(b, from, to) {
        Err(e) => Err(e),
        Ok(true) => Ok(()),
        Ok(false) => move_outcome(b, from, to),
    }
}

/// The board after moving from `from` to `to`.
pub open spec fn attempt_board(b: Seq<Option<Piece>>, from: usize, to: usize) -> Seq<Option<Piece>> {
    if castle_outcome(b, from, to) == Ok::<bool, Seq<char>>(false) {
        move_board(b, from, to)
    } else {
        castle_board(b, from, to)
    }
}

/// The history line of a move from `from` to `to`; `onto_piece` when the destination was occupied.
pub open spec fn moved_status(from: usize, to: usize, onto_piece: bool) -> Seq<char> {
    "Moved "@ + sq_name_of(from) + " -> "@ + sq_name_of(to) + if onto_piece {
        " (capture if occupied). (No legality checking)"@
    } else {
        ". (No legality checking)"@
    }
}

/// The state after trying to move the piece on `from` to `to`: on success the
/// board changes, the selection clears, the turn passes and the move's line is
/// added to the history, which the status then shows; on failure only the status
/// changes, to the history followed by the failure's message.
pub open spec fn after_attempt(v: GuiView, from: usize, to: usize, onto_piece: bool) -> GuiView {
    match attempt_outcome(v.board, from, to) {
        Ok(()) => {
            let history = then_line(v.history, moved_status(from, to, onto_piece));
            GuiView {
                board: attempt_board(v.board, from, to),
                side_to_move: v.side_to_move.opposite(),
                selected: None,
                history,
                status: history,
                flip_board: v.flip_board,
            }
        },
        Err(e) => v.with_note("Move failed: "@ + e),
    }
}

/// The state after a click on square `sq`.
pub open spec fn after_click(v: GuiView, sq: usize) -> GuiView {
    match v.board[sq as int] {
        None => match v.selected {
            Some(from) => if from == sq {
                v.cleared()
            } else {
                after_attempt(v, from, sq, false)
            },
            None => v.with_note("No piece selected."@),
        },
        Some(piece) => match v.selected {
            Some(from) => if from == sq {
                v.cleared()
            } else if v.board[from as int] matches Some(fp) && fp.side == piece.side {
                v.selecting(sq, piece)
            } else {
                after_attempt(v, from, sq, true)
            },
            None => if piece.side != v.side_to_move {
                v.with_note("It's not that side's turn (UI only)."@)
            } else {
                v.selecting(sq, piece)
            },
        },
    }
}

/// The square drawn in row `row` (0 at the top) and column `col` (0 at the left):
/// White at the bottom, or Black at the bottom when the board is flipped.
pub open spec fn cell_square(flip: bool, row: int, col: int) -> int {
    if flip {
        row * 8 + (7 - col)
    } else {
        (7 - row) * 8 + col
    }
}

/// How a square is filled when drawn.
#[derive(Copy, Clone, Debug, PartialEq, Eq, Structural)]
pub enum SquareFill {
    Light,
    Dark,
    Selected,
}

/// The fill of square `sq`: the selection colour when it is selected, otherwise
/// light where file plus rank is even (a1 is light), dark elsewhere.
pub open spec fn fill_of(sq: int, selected: Option<usize>) -> SquareFill {
    if selected matches Some(s) && s == sq {
        SquareFill::Selected
    } else if (sq % 8 + sq / 8) % 2 == 0 {
        SquareFill::Light
    } else {
        SquareFill::Dark
    }
}

/// The square drawn in row `row` and column `col`.
pub fn square_at_cell(flip: bool, row: usize, col: usize) -> (sq: usize)
    requires
        row < 8,
        col < 8,
    ensures
        sq == cell_square(flip, row as int, col as int),
{
    if flip {
        row * 8 + (7 - col)
    } else {
        (7 - row) * 8 + col
    }
}

/// The fill of square `sq` when `selected` is selected.
pub fn square_fill(sq: usize, selected: Option<usize>) -> (f: SquareFill)
    ensures
        f == fill_of(sq as int, selected),
{
    if selected == Some(sq) {
        SquareFill::Selected
    } else if (sq % 8 + sq / 8) % 2 == 0 {
        SquareFill::Light
    } else {
        SquareFill::Dark
    }
}

/// The name of a side, as the front end shows it.
pub fn side_name(s: Side) -> (n: &'static str)
    ensures
        n@ == (match s {
            Side::White => "White"@,
            Side::Black => "Black"@,
        }),
{
    match s {
        Side::White => "White",
        Side::Black => "Black",
    }
}

/// The front end's state, without its window.
pub struct VdmoChessGuiApp {
    board: UiBoard,
    side_to_move: Side,
    selected: Option<usize>,
    history: String,
    status: String,
    flip_board: bool,
}

impl View for VdmoChessGuiApp {
    type V = GuiView;

    closed spec fn view(&self) -> GuiView {
        GuiView {
            board: self.board@,
            side_to_move: self.side_to_move,
            selected: self.selected,
            history: self.history@,
            status: self.status@,
            flip_board: self.flip_board,
        }
    }
}

impl VdmoChessGuiApp {
    /// The starting position, White to move, nothing selected, no moves made,
    /// the board unflipped.
    pub fn new() -> (app: Self)
        ensures
            app@ == (GuiView {
                board: crate::ui_board::start_squares(),
                side_to_move: Side::White,
                selected: None,
                history: Seq::empty(),
                status: "Click a piece, then click a destination square."@,
                flip_board: false,
            }),
            app@.wf(),
    {
        Self {
            board: UiBoard::startpos(),
            side_to_move: Side::White,
            selected: None,
            history: String::new(),
            status: String::from_str("Click a piece, then click a destination square."),
            flip_board: false,
        }
    }

    /// Back to the starting position, White to move, nothing selected, no moves
    /// made; the board's orientation stays.
    pub fn reset(&mut self)
        ensures
            final(self)@ == (GuiView {
                board: crate::ui_board::start_squares(),
                side_to_move: Side::White,
                selected: None,
                history: Seq::empty(),
                status: "Reset to start position."@,
                flip_board: old(self)@.flip_board,
            }),
            final(self)@.wf(),
    {
        self.board = UiBoard::startpos();
        self.side_to_move = Side::White;
        self.selected = None;
        self.history = String::new();
        self.status = String::from_str("Reset to start position.");
    }

    /// The board.
    pub fn board(&self) -> (b: &UiBoard)
        ensures
            b@ == self@.board,
    {
        &self.board
    }

    /// The side to move.
    pub fn side_to_move(&self) -> (s: Side)
        ensures
            s == self@.side_to_move,
    {
        self.side_to_move
    }

    /// The selected square, if any.
    pub fn selected(&self) -> (s: Option<usize>)
        ensures
            s == self@.selected,
    {
        self.selected
    }

    /// The status text: the moves made so far, one per line, then the latest note on a line of its own.
    pub fn status(&self) -> (s: &str)
        ensures
            s@ == self@.status,
    {
        self.status.as_str()
    }

    /// Whether the board is drawn with Black at the bottom.
    pub fn flip_board(&self) -> (f: bool)
        ensures
            f == self@.flip_board,
    {
        self.flip_board
    }

    /// Sets whether the board is drawn with Black at the bottom.
    pub fn set_flip_board(&mut self, flip: bool)
        ensures
            final(self)@ == (GuiView { flip_board: flip, ..old(self)@ }),
    {
        self.flip_board = flip;
    }

    /// The text drawn on square `sq`: the glyph of its piece, or a space when it is empty.
    pub fn square_text(&self, sq: usize) -> (t: &'static str)
        requires
            sq < 64,
        ensures
            t@ == match self@.board[sq as int] {
                Some(p) => glyph(p),
                None => " "@,
            },
    {
        match self.board.get_sq(sq) {
            Some(p) => piece_glyph(p),
            None => " ",
        }
    }

    /// The status: the history, then `note` on a line of its own.
    fn set_note(&mut self, note: &str)
        ensures
            final(self)@ == old(self)@.with_note(note@),
    {
        let mut status = self.history.clone();
        if !self.history.as_str().is_empty() {
            status.append("\n");
        }
        status.append(note);
        self.status = status;
    }

    /// Moves the piece on `from` to `to` (castling when it is a castling move),
    /// records a successful move in the history and reports the result.
    fn attempt_move(&mut self, from: usize, to: usize, onto_piece: bool)
        requires
            from < 64,
            to < 64,
        ensures
            final(self)@ == after_attempt(old(self)@, from, to, onto_piece),
    {
        let moved = match self.board.try_castle(from, to) {
            Ok(true) => Ok(()),
            Ok(false) => self.board.move_piece(from, to),
            Err(e) => Err(e),
        };
        match moved {
            Ok(()) => {
                let (ff, fr) = sq_to_coord(from);
                let (tf, tr) = sq_to_coord(to);
                self.selected = None;
                self.side_to_move = self.side_to_move.other();
                let from_name = sq_name(ff, fr);
                let to_name = sq_name(tf, tr);
                let mut line = String::from_str("Moved ");
                line.append(from_name.as_str());
                line.append(" -> ");
                line.append(to_name.as_str());
                if onto_piece {
                    line.append(" (capture if occupied). (No legality checking)");
                } else {
                    line.append(". (No legality checking)");
                }
                assert(line@ == moved_status(from, to, onto_piece));
                if !self.history.as_str().is_empty() {
                    self.history.append("\n");
                }
                self.history.append(line.as_str());
                self.status = self.history.clone();
            },
            Err(e) => {
                let mut note = String::from_str("Move failed: ");
                note.append(e);
                self.set_note(note.as_str());
            },
        }
    }

    /// Selects square `sq` and names the piece on it.
    fn select(&mut self, sq: usize, piece: Piece)
        requires
            sq < 64,
        ensures
            final(self)@ == old(self)@.selecting(sq, piece),
    {
        self.selected = Some(sq);
        let mut note = String::from_str("Selected ");
        note.append(piece_glyph(piece));
        note.append(".");
        self.set_note(note.as_str());
    }

    /// Handles a click on square `sq`.
    pub fn try_click_square(&mut self, sq: usize)
        requires
            sq < 64,
            old(self)@.wf(),
        ensures
            final(self)@ == after_click(old(self)@, sq),
            final(self)@.wf(),
    {
        let piece = match self.board.get_sq(sq) {
            Some(p) => p,
            None => {
                if let Some(from) = self.selected {
                    if from == sq {
                        self.selected = None;
                        self.set_note("Selection cleared.");
                    } else {
                        self.attempt_move(from, sq, false);
                    }
                } else {
                    self.set_note("No piece selected.");
                }
                proof {
                    crate::ui_board::lemma_view_len(&self.board);
                }
                return;
            },
        };
        if let Some(from) = self.selected {
            if from == sq {
                self.selected = None;
                self.set_note("Selection cleared.");
            } else {
                let from_piece = self.board.get_sq(from);
                let same_side = match from_piece {
                    Some(fp) => fp.side == piece.side,
                    None => false,
                };
                if same_side {
                    self.select(sq, piece);
                } else {
                    self.attempt_move(from, sq, true);
                }
            }
        } else if piece.side != self.side_to_move {
            self.set_note("It's not that side's turn (UI only).");
        } else {
            self.select(sq, piece);
        }
        proof {
            crate::ui_board::lemma_view_len(&self.board);
        }
    }
}

/// A click passes the turn exactly when it moves a piece: the side to move
/// changes exactly when the board changes and exactly when a line is added to the
/// move history; after such a move nothing is selected. No click adds a piece,
/// changes the board's orientation, or hides the move history from the status.
pub proof fn lemma_click_turn_passes_exactly_on_move(v: GuiView, sq: usize)
    requires
        v.wf(),
        sq < 64,
    ensures
        ({
            let w = after_click(v, sq);
            let moved = w.side_to_move != v.side_to_move;
            &&& (w.board != v.board) == moved
            &&& (w.history != v.history) == moved
            &&& moved ==> w.selected is None
            &&& moved ==> w.history.len() > v.history.len() && w.history.subrange(0, v.history.len() as int) == v.history
            &&& w.flip_board == v.flip_board
            &&& occupied_count(w.board) <= occupied_count(v.board)
            &&& w.status.len() >= w.history.len() && w.status.subrange(0, w.history.len() as int) == w.history
            &&& w.wf()
        }),
{
    let w = after_click(v, sq);
    assert(v.side_to_move.opposite() != v.side_to_move);
    let b = v.board;
    if let Some(from) = v.selected {
        let reselect = b[sq as int] matches Some(p) && b[from as int] matches Some(fp) && fp.side
            == p.side;
        if from != sq && !reselect {
            let onto = b[sq as int] is Some;
            assert(w == after_attempt(v, from, sq, onto));
            lemma_moves_add_no_piece(b, from, sq);
            if attempt_outcome(b, from, sq) is Ok {
                let line = moved_status(from, sq, onto);
                assert(line.len() > 0);
                assert(w.history.subrange(0, v.history.len() as int) =~= v.history);
                assert(w.board[from as int] is None);
                assert(b[from as int] is Some);
            }
        }
    }
    assert(w.status.subrange(0, w.history.len() as int) =~= w.history);
}

/// With nothing selected, a click on a piece of the side that is not to move is
/// refused, whichever side is to move: nothing gets selected and the board, the
/// side to move and the move history stay as they were.
pub proof fn lemma_click_other_side_refused(v: GuiView, sq: usize)
    requires
        v.wf(),
        sq < 64,
        v.selected is None,
        v.board[sq as int] matches Some(p) && p.side != v.side_to_move,
    ensures
        after_click(v, sq).selected is None,
        after_click(v, sq).side_to_move == v.side_to_move,
        after_click(v, sq).board == v.board,
        after_click(v, sq).history == v.history,
        after_click(v, sq).status == then_line(v.history, "It's not that side's turn (UI only)."@),
{
}

/// With nothing selected, a click on a piece of the side to move selects it and
/// changes neither the board, the side to move nor the move history.
pub proof fn lemma_click_own_piece_selects(v: GuiView, sq: usize)
    requires
        v.wf(),
        sq < 64,
        v.selected is None,
        v.board[sq as int] matches Some(p) && p.side == v.side_to_move,
    ensures
        after_click(v, sq).selected == Some(sq),
        after_click(v, sq).side_to_move == v.side_to_move,
        after_click(v, sq).board == v.board,
        after_click(v, sq).history == v.history,
        after_click(v, sq).status == then_line(v.history, "Selected "@ + glyph(v.board[sq as int].unwrap()) + "."@),
{
}

/// With a piece selected, a click on another piece of the same side selects that
/// piece instead, for either side: the board, the side to move and the move
/// history stay as they were.
pub proof fn lemma_click_friendly_piece_reselects(v: GuiView, sq: usize)
    requires
        v.wf(),
        sq < 64,
        v.selected is Some,
        ({
            let from = v.selected.unwrap() as int;
            &&& from != sq
            &&& v.board[from] is Some
            &&& v.board[sq as int] is Some
            &&& v.board[from].unwrap().side == v.board[sq as int].unwrap().side
        }),
    ensures
        after_click(v, sq).selected == Some(sq),
        after_click(v, sq).side_to_move == v.side_to_move,
        after_click(v, sq).board == v.board,
        after_click(v, sq).history == v.history,
        after_click(v, sq).status == then_line(v.history, "Selected "@ + glyph(v.board[sq as int].unwrap()) + "."@),
{
}

/// A click on the selected square clears the selection and changes nothing else
/// but the status.
pub proof fn lemma_click_selected_square_clears(v: GuiView, sq: usize)
    requires
        v.wf(),
        sq < 64,
        v.selected == Some(sq),
    ensures
        after_click(v, sq).selected is None,
        after_click(v, sq).side_to_move == v.side_to_move,
        after_click(v, sq).board == v.board,
        after_click(v, sq).history == v.history,
        after_click(v, sq).status == then_line(v.history, "Selection cleared."@),
{
}

/// With a piece selected that makes no castling move, a click on an empty square
/// or on a piece of the other side moves the selected piece there: the clicked
/// square then holds exactly the selected piece (capturing what stood there), the
/// selected piece's square is empty, no other square changes, the selection clears
/// and the turn passes.
pub proof fn lemma_click_moves_selected_piece(v: GuiView, sq: usize)
    requires
        v.wf(),
        sq < 64,
        v.selected is Some,
        ({
            let from = v.selected.unwrap();
            let fp = v.board[from as int].unwrap();
            &&& from != sq
            &&& v.board[from as int] is Some
            &&& !(v.board[sq as int] is Some && v.board[sq as int].unwrap().side == fp.side)
            &&& (fp.kind != PieceKind::King || sq / 8 != from / 8 || (sq % 8 != from % 8 + 2
                && from % 8 != sq % 8 + 2))
        }),
    ensures
        ({
            let from = v.selected.unwrap();
            let w = after_click(v, sq);
            &&& w.board[sq as int] == v.board[from as int]
            &&& w.board[from as int] is None
            &&& forall|i: int| 0 <= i < 64 && i != from && i != sq ==> w.board[i] == v.board[i]
            &&& w.selected is None
            &&& w.side_to_move == v.side_to_move.opposite()
            &&& w.side_to_move != v.side_to_move
            &&& w.status == w.history
            &&& w.history == then_line(
                v.history,
                "Moved "@ + sq_name_of(from) + " -> "@ + sq_name_of(sq) + if v.board[sq as int] is Some {
                    " (capture if occupied). (No legality checking)"@
                } else {
                    ". (No legality checking)"@
                },
            )
        }),
{
    let from = v.selected.unwrap();
    crate::ui_board::lemma_no_castle_otherwise(v.board, from, sq);
    crate::ui_board::lemma_move_piece_moves(v.board, from, sq);
}

/// With nothing selected, a click on an empty square changes nothing but the status.
pub proof fn lemma_click_empty_without_selection(v: GuiView, sq: usize)
    requires
        v.wf(),
        sq < 64,
        v.selected is None,
        v.board[sq as int] is None,
    ensures
        after_click(v, sq).selected is None,
        after_click(v, sq).side_to_move == v.side_to_move,
        after_click(v, sq).board == v.board,
        after_click(v, sq).history == v.history,
        after_click(v, sq).status == then_line(v.history, "No piece selected."@),
{
}

/// The position of a piece kind in the Unicode chess symbols: king, queen, rook,
/// bishop, knight, pawn.
pub open spec fn symbol_offset(k: PieceKind) -> int {
    match k {
        PieceKind::King => 0,
        PieceKind::Queen => 1,
        PieceKind::Rook => 2,
        PieceKind::Bishop => 3,
        PieceKind::Knight => 4,
        PieceKind::Pawn => 5,
    }
}

/// Each glyph is the single Unicode chess symbol of its piece: White's are the
/// hollow symbols U+2654..U+2659, Black's the solid U+265A..U+265F, in the order
/// king, queen, rook, bishop, knight, pawn.
pub proof fn lemma_glyph_is_unicode_symbol(p: Piece)
    ensures
        glyph(p).len() == 1,
        glyph(p)[0] as int == 0x2654 + (if p.side == Side::Black { 6int } else { 0int }) + symbol_offset(p.kind),
{
    reveal_strlit("♔");
    reveal_strlit("♕");
    reveal_strlit("♖");
    reveal_strlit("♗");
    reveal_strlit("♘");
    reveal_strlit("♙");
    reveal_strlit("♚");
    reveal_strlit("♛");
    reveal_strlit("♜");
    reveal_strlit("♝");
    reveal_strlit("♞");
    reveal_strlit("♟");
}

/// Distinct pieces get distinct glyphs.
pub proof fn lemma_glyph_injective(p: Piece, q: Piece)
    ensures
        glyph(p) == glyph(q) ==> p == q,
{
    lemma_glyph_is_unicode_symbol(p);
    lemma_glyph_is_unicode_symbol(q);
    if glyph(p) == glyph(q) {
        assert(glyph(p)[0] == glyph(q)[0]);
    }
}

/// Square names: the file letter from "abcdefgh" and the rank digit from "12345678".
pub proof fn lemma_square_name_letters(file: i32, rank: i32)
    requires
        0 <= file < 8,
        0 <= rank < 8,
    ensures
        square_name(file, rank) == seq!["abcdefgh"@[file as int], "12345678"@[rank as int]],
{
    reveal_strlit("abcdefgh");
    reveal_strlit("12345678");
    assert(square_name(file, rank) =~= seq!["abcdefgh"@[file as int], "12345678"@[rank as int]]);
}

/// The 64 cells show the 64 squares, each once: White's first rank is the bottom
/// row and the a-file the left column when the board is not flipped, and the
/// flipped board is the unflipped one turned half way round.
pub proof fn lemma_cells_show_board(flip: bool, row: int, col: int, row2: int, col2: int)
    requires
        0 <= row < 8,
        0 <= col < 8,
        0 <= row2 < 8,
        0 <= col2 < 8,
    ensures
        0 <= cell_square(flip, row, col) < 64,
        cell_square(flip, row, col) == cell_square(flip, row2, col2) ==> row == row2 && col == col2,
        cell_square(false, row, col) / 8 == 7 - row,
        cell_square(false, row, col) % 8 == col,
        cell_square(true, row, col) == 63 - cell_square(false, row, col),
{
}

/// Every square of the board is shown in some cell, flipped or not.
pub proof fn lemma_every_square_shown(flip: bool, sq: int)
    requires
        0 <= sq < 64,
    ensures
        exists|row: int, col: int| 0 <= row < 8 && 0 <= col < 8 && #[trigger] cell_square(flip, row, col) == sq,
{
    if flip {
        assert(cell_square(flip, sq / 8, 7 - sq % 8) == sq);
    } else {
        assert(cell_square(flip, 7 - sq / 8, sq % 8) == sq);
    }
}

/// The fills form a checkerboard: a1 is light, neighbouring squares along a rank
/// or a file differ, and the selected square is drawn as selected.
pub proof fn lemma_fill_checkerboard(sq: int, selected: Option<usize>)
    requires
        0 <= sq < 64,
    ensures
        fill_of(0, None) == SquareFill::Light,
        selected == Some(sq as usize) ==> fill_of(sq, selected) == SquareFill::Selected,
        sq % 8 < 7 ==> fill_of(sq, None) != fill_of(sq + 1, None),
        sq < 56 ==> fill_of(sq, None) != fill_of(sq + 8, None),
        fill_of(sq, None) != SquareFill::Selected,
{
}

/// With its king selected, a click two files along the king's rank, on a square
/// not held by the king's side, with a rook of the king's side in that corner castles, for either side and either direction:
/// the rook stands on the square the king crossed, the king's square is empty,
/// the selection clears and the turn passes.
pub proof fn lemma_click_castles(v: GuiView, sq: usize)
    requires
        v.wf(),
        sq < 64,
        v.selected is Some,
        ({
            let from = v.selected.unwrap();
            let corner = if sq > from { from / 8 * 8 + 7 } else { from / 8 * 8 };
            &&& v.board[from as int] matches Some(k) && k.kind == PieceKind::King
            &&& sq / 8 == from / 8
            &&& (sq % 8 == from % 8 + 2 || from % 8 == sq % 8 + 2)
            &&& v.board[corner as int] matches Some(r) && r.kind == PieceKind::Rook && r.side == v.board[from as int].unwrap().side
            &&& !(v.board[sq as int] is Some && v.board[sq as int].unwrap().side == v.board[from as int].unwrap().side)
        }),
    ensures
        ({
            let from = v.selected.unwrap();
            let corner = if sq > from { from / 8 * 8 + 7 } else { from / 8 * 8 };
            let w = after_click(v, sq);
            &&& w.board[(from + sq) / 2] == v.board[corner as int]
            &&& w.board[from as int] is None
            &&& corner != sq ==> w.board[sq as int] == v.board[from as int]
            &&& w.selected is None
            &&& w.side_to_move == v.side_to_move.opposite()
        }),
{
    let from = v.selected.unwrap();
    crate::ui_board::lemma_castle_by_king_move(v.board, from, sq);
}

/// Adding a line keeps the text before it: the result starts with the earlier
/// text, ends with the new line, and has exactly one newline between them, or is
/// the new line alone when there was no earlier text.
pub proof fn lemma_then_line_keeps_text(text: Seq<char>, line: Seq<char>)
    ensures
        then_line(text, line).len() == text.len() + line.len() + if text.len() > 0 { 1int } else { 0int },
        then_line(text, line).subrange(0, text.len() as int) == text,
        then_line(text, line).subrange(then_line(text, line).len() - line.len(), then_line(text, line).len() as int) == line,
        text.len() > 0 ==> then_line(text, line)[text.len() as int] == '\n',
        text.len() == 0 ==> then_line(text, line) == line,
{
    reveal_strlit("\n");
    let r = then_line(text, line);
    assert(r.subrange(0, text.len() as int) =~= text);
    assert(r.subrange(r.len() - line.len(), r.len() as int) =~= line);
}

} // verus!
