//! The board model behind the graphical front end: 64 squares indexed
//! a1 = 0 .. h8 = 63, with direct piece moves and castling by a king move.

use vstd::prelude::*;

use crate::engine;

verus! {

/// The two sides, as the front end names them.
#[derive(Copy, Clone, Debug, Eq, PartialEq, Structural)]
pub enum Side {
    White,
    Black,
}

impl Side {
    /// The opposing side.
    pub open spec fn opposite(self) -> Side {
        match self {
            Side::White => Side::Black,
            Side::Black => Side::White,
        }
    }

    /// The opposing side.
    pub fn other(self) -> (s: Side)
        ensures
            s == self.opposite(),
    {
        match self {
            Side::White => Side::Black,
            Side::Black => Side::White,
        }
    }
}

/// The six kinds of chess piece, as the front end names them.
#[derive(Copy, Clone, Debug, Eq, PartialEq, Structural)]
pub enum PieceKind {
    Pawn,
    Knight,
    Bishop,
    Rook,
    Queen,
    King,
}

/// A piece: its side and its kind.
#[derive(Copy, Clone, Debug, Eq, PartialEq, Structural)]
pub struct Piece {
    pub side: Side,
    pub kind: PieceKind,
}

/// The 64 squares of the board, 0 = a1 .. 63 = h8.
pub struct UiBoard {
    squares: [Option<Piece>; 64],
}

impl View for UiBoard {
    type V = Seq<Option<Piece>>;

    closed spec fn view(&self) -> Seq<Option<Piece>> {
        self.squares@
    }
}

impl Clone for UiBoard {
    /// The same squares.
    fn clone(&self) -> (c: Self)
        ensures
            c@ == self@,
    {
        UiBoard { squares: self.squares }
    }
}

/// The index of the square on file `file` and rank `rank`, both counted from 0,
/// or `None` off the board.
pub open spec fn square_index(file: int, rank: int) -> Option<usize> {
    if 0 <= file <= 7 && 0 <= rank <= 7 {
        Some((rank * 8 + file) as usize)
    } else {
        None
    }
}

/// The (file, rank) of a square index.
pub open spec fn coord_of(sq: usize) -> (i32, i32) {
    ((sq % 8) as i32, (sq / 8) as i32)
}

/// An error message as its characters.
pub open spec fn err_view<T>(r: Result<T, &'static str>) -> Result<T, Seq<char>> {
    match r {
        Ok(t) => Ok(t),
        Err(e) => Err(e@),
    }
}

/// The piece kind that starts on file `f` of a back rank.
pub open spec fn back_rank_kind(f: int) -> PieceKind {
    if f == 0 || f == 7 {
        PieceKind::Rook
    } else if f == 1 || f == 6 {
        PieceKind::Knight
    } else if f == 2 || f == 5 {
        PieceKind::Bishop
    } else if f == 3 {
        PieceKind::Queen
    } else {
        PieceKind::King
    }
}

/// What stands on square (f, r) in the starting position.
pub open spec fn start_square(f: int, r: int) -> Option<Piece> {
    if r == 0 {
        Some(Piece { side: Side::White, kind: back_rank_kind(f) })
    } else if r == 1 {
        Some(Piece { side: Side::White, kind: PieceKind::Pawn })
    } else if r == 6 {
        Some(Piece { side: Side::Black, kind: PieceKind::Pawn })
    } else if r == 7 {
        Some(Piece { side: Side::Black, kind: back_rank_kind(f) })
    } else {
        None
    }
}

/// The squares of the starting position.
pub open spec fn start_squares() -> Seq<Option<Piece>> {
    Seq::new(64, |i: int| start_square(i % 8, i / 8))
}

/// The squares after the pawns of the files before `n` have been placed on an empty board.
spec fn pawns_placed(n: int) -> Seq<Option<Piece>> {
    Seq::new(
        64,
        |i: int|
            if i % 8 < n && (i / 8 == 1 || i / 8 == 6) {
                start_square(i % 8, i / 8)
            } else {
                None
            },
    )
}

/// The squares after the pawns and the back-rank pieces of the files before `n` have been placed.
spec fn back_placed(n: int) -> Seq<Option<Piece>> {
    Seq::new(
        64,
        |i: int|
            if i / 8 == 1 || i / 8 == 6 || (i % 8 < n && (i / 8 == 0 || i / 8 == 7)) {
                start_square(i % 8, i / 8)
            } else {
                None
            },
    )
}

/// What `get` reads at (file, rank): the square's content, or `None` off the board.
pub open spec fn board_get(b: Seq<Option<Piece>>, file: int, rank: int) -> Option<Piece> {
    match square_index(file, rank) {
        Some(i) => b[i as int],
        None => None,
    }
}

/// What `set` leaves: the square at (file, rank) replaced, or the board unchanged off the board.
pub open spec fn board_set(b: Seq<Option<Piece>>, file: int, rank: int, p: Option<Piece>) -> Seq<Option<Piece>> {
    match square_index(file, rank) {
        Some(i) => b.update(i as int, p),
        None => b,
    }
}

/// The outcome of moving the piece on `from` to `to`.
pub open spec fn move_outcome(b: Seq<Option<Piece>>, from: usize, to: usize) -> Result<(), Seq<char>> {
    if from >= 64 || to >= 64 {
        Err("square out of range"@)
    } else if b[from as int] is None {
        Err("no piece on from-square"@)
    } else {
        Ok(())
    }
}

/// The squares after moving the piece on `from` to `to`: `from` emptied, `to` taking
/// the moved piece (whatever stood there is captured); unchanged when the move fails.
pub open spec fn move_board(b: Seq<Option<Piece>>, from: usize, to: usize) -> Seq<Option<Piece>> {
    if move_outcome(b, from, to) is Ok {
        b.update(from as int, None).update(to as int, b[from as int])
    } else {
        b
    }
}

/// For a king move from `from` to `to` two files away: the file the rook starts on
/// (the corner on the side the king moves to) and the file it lands on (the one the king crosses).
pub open spec fn castle_rook_files(from: usize, to: usize) -> (int, int) {
    let ff = coord_of(from).0 as int;
    let tf = coord_of(to).0 as int;
    if tf - ff > 0 {
        (7, ff + 1)
    } else {
        (0, ff - 1)
    }
}

/// Whether moving the piece on `from` to `to` is a king move along a rank by two files.
pub open spec fn is_castle_shape(b: Seq<Option<Piece>>, from: usize, to: usize) -> bool {
    let (ff, fr) = coord_of(from);
    let (tf, tr) = coord_of(to);
    &&& b[from as int] matches Some(king) && king.kind == PieceKind::King
    &&& fr == tr
    &&& (tf - ff == 2 || tf - ff == -2)
}

/// The outcome of trying a move from `from` to `to` as a castling move:
/// `Ok(true)` when it castles, `Ok(false)` when it is no castling move,
/// and an error message when it looks like one but cannot be made.
pub open spec fn castle_outcome(b: Seq<Option<Piece>>, from: usize, to: usize) -> Result<bool, Seq<char>> {
    let fr = coord_of(from).1 as int;
    let (rff, rtf) = castle_rook_files(from, to);
    if b[from as int] is None {
        Err("no piece on from-square"@)
    } else if !is_castle_shape(b, from, to) {
        Ok(false)
    } else if square_index(rff, fr) is None {
        Err("rook square invalid"@)
    } else if square_index(rtf, fr) is None {
        Err("rook target invalid"@)
    } else {
        match b[square_index(rff, fr).unwrap() as int] {
            None => Err("rook missing"@),
            Some(rook) => if rook.kind != PieceKind::Rook || rook.side != b[from as int].unwrap().side {
                Err("rook missing for castling"@)
            } else {
                Ok(true)
            },
        }
    }
}

/// The squares after a castling attempt: when it castles, the king goes to `to` and
/// the rook from its corner to the square the king crossed, in that order of writes;
/// otherwise the board is unchanged.
pub open spec fn castle_board(b: Seq<Option<Piece>>, from: usize, to: usize) -> Seq<Option<Piece>> {
    let fr = coord_of(from).1 as int;
    let (rff, rtf) = castle_rook_files(from, to);
    let rf = square_index(rff, fr).unwrap() as int;
    let rt = square_index(rtf, fr).unwrap() as int;
    if castle_outcome(b, from, to) == Ok::<bool, Seq<char>>(true) {
        b.update(from as int, None).update(to as int, b[from as int]).update(rf, None).update(rt, b[rf])
    } else {
        b
    }
}

/// The index of square (file, rank), or `None` off the board.
pub fn coord_to_sq(file: i32, rank: i32) -> (res: Option<usize>)
    ensures
        res == square_index(file as int, rank as int),
{
    if 0 <= file && file <= 7 && 0 <= rank && rank <= 7 {
        Some((rank as usize) * 8 + (file as usize))
    } else {
        None
    }
}

/// The (file, rank) of a square index.
pub fn sq_to_coord(sq: usize) -> (res: (i32, i32))
    ensures
        res == coord_of(sq),
{
    let file = (sq % 8) as i32;
    let rank = (sq / 8) as i32;
    (file, rank)
}

impl UiBoard {
    /// A board with no pieces.
    pub fn empty() -> (b: Self)
        ensures
            b@ == Seq::new(64, |i: int| None::<Piece>),
    {
        let b = Self { squares: [None; 64] };
        assert(b@ =~= Seq::new(64, |i: int| None::<Piece>));
        b
    }

    /// The index of square (file, rank), or `None` off the board.
    pub fn idx(file: i32, rank: i32) -> (res: Option<usize>)
        ensures
            res == square_index(file as int, rank as int),
    {
        if 0 <= file && file <= 7 && 0 <= rank && rank <= 7 {
            Some((rank as usize) * 8 + (file as usize))
        } else {
            None
        }
    }

    /// The piece on (file, rank); `None` for an empty square or one off the board.
    pub fn get(&self, file: i32, rank: i32) -> (res: Option<Piece>)
        ensures
            res == board_get(self@, file as int, rank as int),
    {
        match Self::idx(file, rank) {
            Some(i) => self.squares[i],
            None => None,
        }
    }

    /// Puts `p` on (file, rank); does nothing off the board.
    pub fn set(&mut self, file: i32, rank: i32, p: Option<Piece>)
        ensures
            final(self)@ == board_set(old(self)@, file as int, rank as int, p),
    {
        if let Some(i) = Self::idx(file, rank) {
            self.squares[i] = p;
        }
    }

    /// The piece on square `sq`.
    pub fn get_sq(&self, sq: usize) -> (res: Option<Piece>)
        requires
            sq < 64,
        ensures
            res == self@[sq as int],
    {
        self.squares[sq]
    }

    /// Puts `p` on square `sq`.
    pub fn set_sq(&mut self, sq: usize, p: Option<Piece>)
        requires
            sq < 64,
        ensures
            final(self)@ == old(self)@.update(sq as int, p),
    {
        self.squares[sq] = p;
    }

    /// The starting position: pawns on the second and seventh ranks, the back ranks
    /// rook, knight, bishop, queen, king, bishop, knight, rook from the a-file.
    pub fn startpos() -> (b: Self)
        ensures
            b@ == start_squares(),
    {
        let mut b = Self::empty();
        assert(b@ =~= pawns_placed(0));
        let mut file: i32 = 0;
        while file < 8
            invariant
                0 <= file <= 8,
                b@ == pawns_placed(file as int),
            decreases 8 - file,
        {
            b.set(file, 1, Some(Piece { side: Side::White, kind: PieceKind::Pawn }));
            b.set(file, 6, Some(Piece { side: Side::Black, kind: PieceKind::Pawn }));
            assert(b@ =~= pawns_placed(file + 1));
            file = file + 1;
        }
        let back = [
            PieceKind::Rook,
            PieceKind::Knight,
            PieceKind::Bishop,
            PieceKind::Queen,
            PieceKind::King,
            PieceKind::Bishop,
            PieceKind::Knight,
            PieceKind::Rook,
        ];
        assert(b@ =~= back_placed(0));
        let mut file: usize = 0;
        while file < 8
            invariant
                file <= 8,
                b@ == back_placed(file as int),
                forall|f: int| 0 <= f < 8 ==> back[f] == back_rank_kind(f),
            decreases 8 - file,
        {
            let kind = back[file];
            b.set(file as i32, 0, Some(Piece { side: Side::White, kind }));
            b.set(file as i32, 7, Some(Piece { side: Side::Black, kind }));
            assert(b@ =~= back_placed(file + 1));
            file = file + 1;
        }
        assert(b@ =~= start_squares());
        b
    }

    /// Moves the piece on `from` to `to`, capturing whatever stands there.
    pub fn move_piece(&mut self, from: usize, to: usize) -> (res: Result<(), &'static str>)
        ensures
            err_view(res) == move_outcome(old(self)@, from, to),
            final(self)@ == move_board(old(self)@, from, to),
    {
        if from >= 64 || to >= 64 {
            return Err("square out of range");
        }
        let p = match self.squares[from] {
            Some(p) => p,
            None => return Err("no piece on from-square"),
        };
        self.squares[from] = None;
        self.squares[to] = Some(p);
        Ok(())
    }

    /// Castles when the piece on `from` is a king moving two files along its rank and
    /// a rook of its side stands in the corner it moves towards: the king goes to `to`
    /// and the rook to the square the king crossed. Returns `Ok(false)`, leaving the
    /// board unchanged, for any other move.
    pub fn try_castle(&mut self, from: usize, to: usize) -> (res: Result<bool, &'static str>)
        requires
            from < 64,
            castle_outcome(old(self)@, from, to) == Ok::<bool, Seq<char>>(true) ==> to < 64,
        ensures
            err_view(res) == castle_outcome(old(self)@, from, to),
            final(self)@ == castle_board(old(self)@, from, to),
    {
        let king = match self.squares[from] {
            Some(k) => k,
            None => return Err("no piece on from-square"),
        };
        if king.kind != PieceKind::King {
            return Ok(false);
        }
        let (ff, fr) = sq_to_coord(from);
        let (tf, tr) = sq_to_coord(to);
        if fr != tr {
            return Ok(false);
        }
        let file_delta = tf - ff;
        if file_delta != 2 && file_delta != -2 {
            return Ok(false);
        }
        let (rook_from_file, rook_to_file) = if file_delta > 0 {
            (7, ff + 1)
        } else {
            (0, ff - 1)
        };
        let rook_from = match coord_to_sq(rook_from_file, fr) {
            Some(s) => s,
            None => return Err("rook square invalid"),
        };
        let rook_to = match coord_to_sq(rook_to_file, fr) {
            Some(s) => s,
            None => return Err("rook target invalid"),
        };
        let rook = match self.squares[rook_from] {
            Some(r) => r,
            None => return Err("rook missing"),
        };
        if rook.kind != PieceKind::Rook || rook.side != king.side {
            return Err("rook missing for castling");
        }
        self.squares[from] = None;
        self.squares[to] = Some(king);
        self.squares[rook_from] = None;
        self.squares[rook_to] = Some(rook);
        Ok(true)
    }
}

/// Every board has its 64 squares.
pub proof fn lemma_view_len(b: &UiBoard)
    ensures
        b@.len() == 64,
{
}

/// `other` is an involution without fixed points: the opposite of the opposite
/// side is the side itself, and no side is its own opposite.
pub proof fn lemma_other_involutive(s: Side)
    ensures
        s.opposite().opposite() == s,
        s.opposite() != s,
{
}

/// From a square index to its coordinates and back gives the index again.
pub proof fn lemma_square_coord_round_trip(sq: usize)
    requires
        sq < 64,
    ensures
        square_index(coord_of(sq).0 as int, coord_of(sq).1 as int) == Some(sq),
{
}

/// From coordinates on the board to the square index and back gives the coordinates again.
pub proof fn lemma_coord_square_round_trip(file: i32, rank: i32)
    requires
        0 <= file <= 7,
        0 <= rank <= 7,
    ensures
        square_index(file as int, rank as int) matches Some(sq) && coord_of(sq) == (file, rank),
{
    let sq = (rank * 8 + file) as usize;
    assert(sq % 8 == file && sq / 8 == rank);
}

/// Reading a square after writing it gives what was written; every other square
/// reads as before. A write off the board changes nothing.
pub proof fn lemma_get_after_set(
    b: Seq<Option<Piece>>,
    file: int,
    rank: int,
    p: Option<Piece>,
    f2: int,
    r2: int,
)
    requires
        b.len() == 64,
    ensures
        board_get(board_set(b, file, rank, p), f2, r2) == if square_index(file, rank) is Some && f2 == file
            && r2 == rank {
            p
        } else {
            board_get(b, f2, r2)
        },
{
}

/// Writing back what a square reads leaves the board unchanged.
pub proof fn lemma_set_what_get_reads(b: Seq<Option<Piece>>, file: int, rank: int)
    requires
        b.len() == 64,
    ensures
        board_set(b, file, rank, board_get(b, file, rank)) == b,
{
    if let Some(i) = square_index(file, rank) {
        assert(b.update(i as int, b[i as int]) =~= b);
    }
}

/// Moving a piece to an empty square and then back restores the board.
pub proof fn lemma_move_back(b: Seq<Option<Piece>>, from: usize, to: usize)
    requires
        b.len() == 64,
        from < 64,
        to < 64,
        from != to,
        b[from as int] is Some,
        b[to as int] is None,
    ensures
        move_outcome(b, from, to) is Ok,
        move_outcome(move_board(b, from, to), to, from) is Ok,
        move_board(move_board(b, from, to), to, from) == b,
{
    assert(move_board(move_board(b, from, to), to, from) =~= b);
}

/// The number of occupied squares.
pub open spec fn occupied_count(b: Seq<Option<Piece>>) -> nat
    decreases b.len(),
{
    if b.len() == 0 {
        0
    } else {
        occupied_count(b.drop_last()) + if b.last() is Some {
            1nat
        } else {
            0nat
        }
    }
}

/// Writing one square changes the occupied count by what it removes and adds.
pub proof fn lemma_occupied_count_update(b: Seq<Option<Piece>>, i: int, p: Option<Piece>)
    requires
        0 <= i < b.len(),
    ensures
        occupied_count(b.update(i, p)) + (if b[i] is Some { 1int } else { 0int })
            == occupied_count(b) + (if p is Some { 1int } else { 0int }),
    decreases b.len(),
{
    if i < b.len() - 1 {
        assert(b.update(i, p).drop_last() =~= b.drop_last().update(i, p));
        lemma_occupied_count_update(b.drop_last(), i, p);
    } else {
        assert(b.update(i, p).drop_last() =~= b.drop_last());
    }
}

/// A move or a castle never adds pieces to the board: the number of occupied
/// squares stays the same, or drops by one when a piece is captured.
pub proof fn lemma_moves_add_no_piece(b: Seq<Option<Piece>>, from: usize, to: usize)
    requires
        b.len() == 64,
        from < 64,
        castle_outcome(b, from, to) == Ok::<bool, Seq<char>>(true) ==> to < 64,
    ensures
        occupied_count(move_board(b, from, to)) <= occupied_count(b),
        occupied_count(castle_board(b, from, to)) <= occupied_count(b),
{
    if move_outcome(b, from, to) is Ok {
        let b1 = b.update(from as int, None);
        lemma_occupied_count_update(b, from as int, None);
        lemma_occupied_count_update(b1, to as int, b[from as int]);
    }
    if castle_outcome(b, from, to) == Ok::<bool, Seq<char>>(true) {
        let fr = coord_of(from).1 as int;
        let rf = square_index(castle_rook_files(from, to).0, fr).unwrap() as int;
        let rt = square_index(castle_rook_files(from, to).1, fr).unwrap() as int;
        let b1 = b.update(from as int, None);
        let b2 = b1.update(to as int, b[from as int]);
        let b3 = b2.update(rf, None);
        lemma_occupied_count_update(b, from as int, None);
        lemma_occupied_count_update(b1, to as int, b[from as int]);
        lemma_occupied_count_update(b2, rf, None);
        lemma_occupied_count_update(b3, rt, b[rf]);
    }
}

/// A castling move puts the king on its destination and the rook on the square the
/// king crossed, and empties the squares they came from, whenever the king's
/// destination is not the rook's corner.
pub proof fn lemma_castle_places_king_and_rook(b: Seq<Option<Piece>>, from: usize, to: usize)
    requires
        b.len() == 64,
        from < 64,
        to < 64,
        castle_outcome(b, from, to) == Ok::<bool, Seq<char>>(true),
        square_index(castle_rook_files(from, to).0, coord_of(from).1 as int) != Some(to),
    ensures
        ({
            let fr = coord_of(from).1 as int;
            let rf = square_index(castle_rook_files(from, to).0, fr).unwrap() as int;
            let rt = square_index(castle_rook_files(from, to).1, fr).unwrap() as int;
            let after = castle_board(b, from, to);
            &&& after[to as int] == b[from as int]
            &&& after[rt] == b[rf]
            &&& after[from as int] is None
            &&& after[rf] is None
            &&& b[from as int] matches Some(k) && k.kind == PieceKind::King
            &&& b[rf] matches Some(r) && r.kind == PieceKind::Rook && r.side == b[from as int].unwrap().side
            &&& rt == (from + to) / 2
            &&& forall|i: int|
                0 <= i < 64 && i != from && i != to && i != rf && i != rt ==> after[i] == b[i]
        }),
{
}

/// The front end's side for an engine color.
pub open spec fn side_of(c: engine::Color) -> Side {
    match c {
        engine::Color::White => Side::White,
        engine::Color::Black => Side::Black,
    }
}

/// The front end's piece kind for an engine piece.
pub open spec fn kind_of(p: engine::Piece) -> PieceKind {
    match p {
        engine::Piece::King => PieceKind::King,
        engine::Piece::Queen => PieceKind::Queen,
        engine::Piece::Rook => PieceKind::Rook,
        engine::Piece::Bishop => PieceKind::Bishop,
        engine::Piece::Knight => PieceKind::Knight,
        engine::Piece::Pawn => PieceKind::Pawn,
    }
}

/// The front end's starting position is the engine's: every square holds the
/// piece the standard set-up puts there, or nothing where it puts nothing.
pub proof fn lemma_startpos_is_standard_setup(file: int, rank: int)
    requires
        0 <= file < 8,
        0 <= rank < 8,
    ensures
        start_squares()[rank * 8 + file] == match engine::standard_setup(file, rank) {
            None => None,
            Some((p, c)) => Some(Piece { side: side_of(c), kind: kind_of(p) }),
        },
{
    let i = rank * 8 + file;
    assert(i % 8 == file && i / 8 == rank);
}

/// A move succeeds exactly when both squares are on the board and `from` holds a
/// piece; then the destination holds exactly the piece that stood on `from`
/// (whatever stood on the destination is gone), `from` is empty unless it is the
/// destination, and no other square changes. A failed move changes nothing.
pub proof fn lemma_move_piece_moves(b: Seq<Option<Piece>>, from: usize, to: usize)
    requires
        b.len() == 64,
    ensures
        (move_outcome(b, from, to) is Ok) == (from < 64 && to < 64 && b[from as int] is Some),
        move_outcome(b, from, to) is Ok ==> {
            &&& move_board(b, from, to)[to as int] == b[from as int]
            &&& from != to ==> move_board(b, from, to)[from as int] is None
            &&& forall|i: int| 0 <= i < 64 && i != from && i != to ==> move_board(b, from, to)[i] == b[i]
        },
        !(move_outcome(b, from, to) is Ok) ==> move_board(b, from, to) == b,
{
}

/// Castling by a king move: when the piece on `from` is a king, `to` lies on the
/// same rank exactly two files away, and the corner of that rank in the direction
/// of the move holds a rook of the king's side, castling succeeds for either side
/// and either direction. The rook goes to the square the king crosses, the king
/// to `to` (unless `to` is the rook's own corner, which the rook's move then empties),
/// `from` and the corner are emptied, and no other square changes.
pub proof fn lemma_castle_by_king_move(b: Seq<Option<Piece>>, from: usize, to: usize)
    requires
        b.len() == 64,
        from < 64,
        to < 64,
        b[from as int] matches Some(k) && k.kind == PieceKind::King,
        to / 8 == from / 8,
        to % 8 == from % 8 + 2 || from % 8 == to % 8 + 2,
        ({
            let corner = if to > from { from / 8 * 8 + 7 } else { from / 8 * 8 };
            b[corner as int] matches Some(r) && r.kind == PieceKind::Rook && r.side == b[from as int].unwrap().side
        }),
    ensures
        castle_outcome(b, from, to) == Ok::<bool, Seq<char>>(true),
        ({
            let corner = (if to > from { from / 8 * 8 + 7 } else { from / 8 * 8 }) as int;
            let crossed = (from + to) / 2;
            let after = castle_board(b, from, to);
            &&& after[crossed] == b[corner]
            &&& after[from as int] is None
            &&& corner != to ==> after[to as int] == b[from as int] && after[corner] is None
            &&& corner == to ==> after[to as int] is None
            &&& forall|i: int|
                0 <= i < 64 && i != from && i != to && i != corner && i != crossed ==> after[i] == b[i]
        }),
{
}

/// A move of anything but a king, or of a king not two files along its rank, is no
/// castling move: `try_castle` answers `Ok(false)` and leaves the board unchanged.
pub proof fn lemma_no_castle_otherwise(b: Seq<Option<Piece>>, from: usize, to: usize)
    requires
        b.len() == 64,
        from < 64,
        to < 64,
        b[from as int] matches Some(p) && (p.kind != PieceKind::King || to / 8 != from / 8 || (to % 8
            != from % 8 + 2 && from % 8 != to % 8 + 2)),
    ensures
        castle_outcome(b, from, to) == Ok::<bool, Seq<char>>(false),
        castle_board(b, from, to) == b,
{
}

/// A king move of two files along its rank with no rook of the king's side in
/// the corner it moves towards is refused with an error and changes nothing.
pub proof fn lemma_castle_refused_without_rook(b: Seq<Option<Piece>>, from: usize, to: usize)
    requires
        b.len() == 64,
        from < 64,
        to < 64,
        b[from as int] matches Some(k) && k.kind == PieceKind::King,
        to / 8 == from / 8,
        to % 8 == from % 8 + 2 || from % 8 == to % 8 + 2,
        ({
            let corner = if to > from { from / 8 * 8 + 7 } else { from / 8 * 8 };
            !(b[corner as int] matches Some(r) && r.kind == PieceKind::Rook && r.side == b[from as int].unwrap().side)
        }),
    ensures
        castle_outcome(b, from, to) is Err,
        castle_board(b, from, to) == b,
{
}

} // verus!
