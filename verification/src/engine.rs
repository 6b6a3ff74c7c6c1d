//! Engine board representation and material evaluation.

use vstd::prelude::*;

verus! {

/// The six kinds of chess piece.
#[derive(Debug, Clone, Copy, PartialEq, Eq, Structural)]
pub enum Piece {
    King,
    Queen,
    Rook,
    Bishop,
    Knight,
    Pawn,
}

/// The two sides.
#[derive(Debug, Clone, Copy, PartialEq, Eq, Structural)]
pub enum Color {
    White,
    Black,
}

/// A square, by file (0 = a) and rank (0 = first rank).
#[derive(Debug, Clone, Copy)]
pub struct Square {
    pub file: u8,
    pub rank: u8,
}

/// A piece of a given color standing on a square.
#[derive(Debug)]
pub struct PieceAt {
    pub piece: Piece,
    pub color: Color,
    pub sq: Square,
}

/// A position: the pieces on the board and the side to move.
#[derive(Debug)]
pub struct Board {
    pieces: Vec<PieceAt>,
    side: Color,
}

/// The material value of a piece kind, in centipawns.
pub open spec fn piece_value(p: Piece) -> int {
    match p {
        Piece::Pawn => 100,
        Piece::Knight => 320,
        Piece::Bishop => 330,
        Piece::Rook => 500,
        Piece::Queen => 900,
        Piece::King => 20000,
    }
}

/// A piece's contribution to the evaluation: its value for White, minus it for Black.
pub open spec fn signed_value(pa: PieceAt) -> int {
    if pa.color == Color::White {
        piece_value(pa.piece)
    } else {
        -piece_value(pa.piece)
    }
}

/// The material balance of a list of pieces, from White's point of view.
pub open spec fn material(s: Seq<PieceAt>) -> int
    decreases s.len(),
{
    if s.len() == 0 {
        0
    } else {
        material(s.drop_last()) + signed_value(s.last())
    }
}

/// Whether a piece stands on the square `(f, r)`.
pub open spec fn stands_on(pa: PieceAt, f: int, r: int) -> bool {
    pa.sq.file == f && pa.sq.rank == r
}

/// The piece kind that starts on file `f` of a back rank.
pub open spec fn back_rank_piece(f: int) -> Piece {
    if f == 0 || f == 7 {
        Piece::Rook
    } else if f == 1 || f == 6 {
        Piece::Knight
    } else if f == 2 || f == 5 {
        Piece::Bishop
    } else if f == 3 {
        Piece::Queen
    } else {
        Piece::King
    }
}

/// What stands on square `(f, r)` in the standard starting position.
pub open spec fn standard_setup(f: int, r: int) -> Option<(Piece, Color)> {
    if r == 0 {
        Some((back_rank_piece(f), Color::White))
    } else if r == 1 {
        Some((Piece::Pawn, Color::White))
    } else if r == 6 {
        Some((Piece::Pawn, Color::Black))
    } else if r == 7 {
        Some((back_rank_piece(f), Color::Black))
    } else {
        None
    }
}

/// The pieces of the starting position in the order the board stores them:
/// the back ranks file by file (White, then Black), then the pawns file by file
/// (White, then Black).
pub open spec fn starting_pieces() -> Seq<PieceAt> {
    Seq::new(
        32,
        |i: int|
            {
                let white = i % 2 == 0;
                let color = if white { Color::White } else { Color::Black };
                if i < 16 {
                    PieceAt {
                        piece: back_rank_piece(i / 2),
                        color,
                        sq: Square { file: (i / 2) as u8, rank: if white { 0 } else { 7 } },
                    }
                } else {
                    PieceAt {
                        piece: Piece::Pawn,
                        color,
                        sq: Square { file: ((i - 16) / 2) as u8, rank: if white { 1 } else { 6 } },
                    }
                }
            },
    )
}

/// A well-formed list of pieces: at most 64 of them, all on the board,
/// no two on the same square.
pub open spec fn pieces_wf(s: Seq<PieceAt>) -> bool {
    &&& s.len() <= 64
    &&& forall|i: int| 0 <= i < s.len() ==> #[trigger] s[i].sq.file < 8 && s[i].sq.rank < 8
    &&& forall|i: int, j: int|
        #![trigger s[i], s[j]]
        0 <= i < j < s.len() ==> !stands_on(s[i], s[j].sq.file as int, s[j].sq.rank as int)
}

impl Clone for PieceAt {
    /// The same piece, color and square.
    fn clone(&self) -> (c: Self)
        ensures
            c == *self,
    {
        PieceAt { piece: self.piece, color: self.color, sq: self.sq }
    }
}

impl Clone for Board {
    /// The same pieces in the same order, and the same side to move.
    fn clone(&self) -> (c: Self)
        ensures
            c.pieces() == self.pieces(),
            c.side() == self.side(),
    {
        proof {
            use_type_invariant(self);
        }
        let mut pieces: Vec<PieceAt> = Vec::new();
        let mut i: usize = 0;
        while i < self.pieces.len()
            invariant
                i <= self.pieces@.len(),
                pieces@ == self.pieces@.take(i as int),
            decreases self.pieces@.len() - i,
        {
            pieces.push(self.pieces[i].clone());
            i = i + 1;
        }
        assert(pieces@ =~= self.pieces@);
        Board { pieces, side: self.side }
    }
}

impl Board {
    /// The pieces of the board, in their stored order.
    pub closed spec fn pieces(&self) -> Seq<PieceAt> {
        self.pieces@
    }

    /// The side to move.
    pub closed spec fn side(&self) -> Color {
        self.side
    }

    /// The board's invariant: its pieces are well formed.
    pub open spec fn wf(&self) -> bool {
        pieces_wf(self.pieces())
    }

    /// Every board keeps its invariant.
    #[verifier::type_invariant]
    spec fn pieces_well_formed(self) -> bool {
        pieces_wf(self.pieces@)
    }

    /// The standard chess starting position, White to move.
    pub fn starting() -> (b: Self)
        ensures
            b.pieces() == starting_pieces(),
            b.side() == Color::White,
            b.wf(),
    {
        let mut pieces: Vec<PieceAt> = Vec::new();
        let back = [
            Piece::Rook,
            Piece::Knight,
            Piece::Bishop,
            Piece::Queen,
            Piece::King,
            Piece::Bishop,
            Piece::Knight,
            Piece::Rook,
        ];
        let mut i: u8 = 0;
        while i < 8
            invariant
                i <= 8,
                pieces@ == starting_pieces().take(2 * i),
                forall|f: int| 0 <= f < 8 ==> back[f] == back_rank_piece(f),
            decreases 8 - i,
        {
            let p = back[i as usize];
            pieces.push(PieceAt { piece: p, color: Color::White, sq: Square { file: i, rank: 0 } });
            pieces.push(PieceAt { piece: p, color: Color::Black, sq: Square { file: i, rank: 7 } });
            i = i + 1;
        }
        let mut i: u8 = 0;
        while i < 8
            invariant
                i <= 8,
                pieces@ == starting_pieces().take(16 + 2 * i),
            decreases 8 - i,
        {
            pieces.push(PieceAt { piece: Piece::Pawn, color: Color::White, sq: Square { file: i, rank: 1 } });
            pieces.push(PieceAt { piece: Piece::Pawn, color: Color::Black, sq: Square { file: i, rank: 6 } });
            i = i + 1;
        }
        Board { pieces, side: Color::White }
    }

    /// The first piece that stands on square `(f, r)`, if any.
    pub fn at(&self, f: u8, r: u8) -> (res: Option<&PieceAt>)
        ensures
            match res {
                None => forall|i: int| 0 <= i < self.pieces().len() ==> !stands_on(#[trigger] self.pieces()[i], f as int, r as int),
                Some(p) => exists|i: int|
                    0 <= i < self.pieces().len() && self.pieces()[i] == *p && stands_on(self.pieces()[i], f as int, r as int)
                    && forall|j: int| 0 <= j < i ==> !stands_on(#[trigger] self.pieces()[j], f as int, r as int),
            },
    {
        let mut i: usize = 0;
        while i < self.pieces.len()
            invariant
                i <= self.pieces@.len(),
                forall|j: int| 0 <= j < i ==> !stands_on(#[trigger] self.pieces@[j], f as int, r as int),
            decreases self.pieces@.len() - i,
        {
            let p = &self.pieces[i];
            if p.sq.file == f && p.sq.rank == r {
                assert(stands_on(self.pieces()[i as int], f as int, r as int));
                return Some(p);
            }
            i = i + 1;
        }
        None
    }

    /// The side to move.
    pub fn side_to_move(&self) -> (c: Color)
        ensures
            c == self.side(),
    {
        self.side
    }

    /// The material balance from White's point of view, in centipawns:
    /// pawn 100, knight 320, bishop 330, rook 500, queen 900, king 20000.
    pub fn material_eval(&self) -> (v: i32)
        ensures
            v == material(self.pieces()),
    {
        proof {
            use_type_invariant(self);
        }
        let mut sum: i32 = 0;
        let mut i: usize = 0;
        while i < self.pieces.len()
            invariant
                i <= self.pieces@.len() <= 64,
                sum == material(self.pieces@.take(i as int)),
                -20000 * i <= sum <= 20000 * i,
            decreases self.pieces@.len() - i,
        {
            let pa = &self.pieces[i];
            let v: i32 = match pa.piece {
                Piece::Pawn => 100,
                Piece::Knight => 320,
                Piece::Bishop => 330,
                Piece::Rook => 500,
                Piece::Queen => 900,
                Piece::King => 20000,
            };
            let signed: i32 = if pa.color == Color::White { v } else { -v };
            proof {
                assert(self.pieces@.take(i + 1).drop_last() =~= self.pieces@.take(i as int));
            }
            sum = sum + signed;
            i = i + 1;
        }
        proof {
            assert(self.pieces@.take(i as int) =~= self.pieces@);
        }
        sum
    }
}

/// Pieces paired off as (White p, Black p), pair after pair.
pub open spec fn paired_by_color(s: Seq<PieceAt>) -> bool {
    &&& s.len() % 2 == 0
    &&& forall|k: int|
        0 <= k < s.len() / 2 ==> {
            &&& #[trigger] s[2 * k].piece == s[2 * k + 1].piece
            &&& s[2 * k].color == Color::White
            &&& s[2 * k + 1].color == Color::Black
        }
}

proof fn lemma_paired_material_zero(s: Seq<PieceAt>)
    requires
        paired_by_color(s),
    ensures
        material(s) == 0,
    decreases s.len(),
{
    if s.len() > 0 {
        let t = s.drop_last().drop_last();
        let k = (s.len() - 2) / 2;
        assert(2 * k == s.len() - 2);
        assert(s[2 * k].piece == s[2 * k + 1].piece);
        assert(material(s) == material(s.drop_last()) + signed_value(s[2 * k + 1]));
        assert(material(s.drop_last()) == material(t) + signed_value(s[2 * k]));
        assert forall|k: int| 0 <= k < t.len() / 2 implies {
            &&& #[trigger] t[2 * k].piece == t[2 * k + 1].piece
            &&& t[2 * k].color == Color::White
            &&& t[2 * k + 1].color == Color::Black
        } by {
            assert(s[2 * k].piece == s[2 * k + 1].piece);
        }
        lemma_paired_material_zero(t);
    }
}

/// The starting position is materially balanced: its evaluation is 0.
pub proof fn lemma_starting_material_balanced()
    ensures
        material(starting_pieces()) == 0,
{
    let s = starting_pieces();
    assert forall|k: int| 0 <= k < s.len() / 2 implies {
        &&& #[trigger] s[2 * k].piece == s[2 * k + 1].piece
        &&& s[2 * k].color == Color::White
        &&& s[2 * k + 1].color == Color::Black
    } by {}
    lemma_paired_material_zero(s);
}

/// The starting position places exactly the standard set-up: a square of the
/// board is empty in it if and only if the standard set-up leaves it empty, and
/// every piece on a square is the one the standard set-up puts there.
pub proof fn lemma_starting_setup(f: int, r: int)
    requires
        0 <= f < 8,
        0 <= r < 8,
    ensures
        standard_setup(f, r) is None <==> (forall|i: int|
            0 <= i < starting_pieces().len() ==> !stands_on(#[trigger] starting_pieces()[i], f, r)),
        forall|i: int|
            0 <= i < starting_pieces().len() && stands_on(#[trigger] starting_pieces()[i], f, r)
                ==> standard_setup(f, r) == Some((starting_pieces()[i].piece, starting_pieces()[i].color)),
{
    let s = starting_pieces();
    if r == 0 {
        assert(stands_on(s[2 * f], f, r));
    } else if r == 1 {
        assert(stands_on(s[16 + 2 * f], f, r));
    } else if r == 6 {
        assert(stands_on(s[17 + 2 * f], f, r));
    } else if r == 7 {
        assert(stands_on(s[2 * f + 1], f, r));
    }
}

/// The other color.
pub open spec fn opposite_color(c: Color) -> Color {
    match c {
        Color::White => Color::Black,
        Color::Black => Color::White,
    }
}

/// The value of a (piece, color) pair: the piece's value for White, minus it for Black.
pub open spec fn kind_value(k: (Piece, Color)) -> int {
    if k.1 == Color::White {
        piece_value(k.0)
    } else {
        -piece_value(k.0)
    }
}

/// The material balance of a list of (piece, color) pairs.
pub open spec fn kinds_material(k: Seq<(Piece, Color)>) -> int
    decreases k.len(),
{
    if k.len() == 0 {
        0
    } else {
        kinds_material(k.drop_last()) + kind_value(k.last())
    }
}

/// The (piece, color) pairs of a list of pieces, squares left out.
pub open spec fn colored_kinds(s: Seq<PieceAt>) -> Seq<(Piece, Color)> {
    s.map_values(|pa: PieceAt| (pa.piece, pa.color))
}

/// The same pairs with every color swapped.
pub open spec fn mirrored(k: Seq<(Piece, Color)>) -> Seq<(Piece, Color)> {
    k.map_values(|x: (Piece, Color)| (x.0, opposite_color(x.1)))
}

proof fn lemma_material_of_kinds(s: Seq<PieceAt>)
    ensures
        material(s) == kinds_material(colored_kinds(s)),
    decreases s.len(),
{
    if s.len() > 0 {
        assert(colored_kinds(s).drop_last() =~= colored_kinds(s.drop_last()));
        lemma_material_of_kinds(s.drop_last());
    }
}

proof fn lemma_kinds_material_mirror(k: Seq<(Piece, Color)>)
    ensures
        kinds_material(mirrored(k)) == -kinds_material(k),
    decreases k.len(),
{
    if k.len() > 0 {
        assert(mirrored(k).drop_last() =~= mirrored(k.drop_last()));
        lemma_kinds_material_mirror(k.drop_last());
    }
}

proof fn lemma_kinds_material_add(a: Seq<(Piece, Color)>, b: Seq<(Piece, Color)>)
    ensures
        kinds_material(a + b) == kinds_material(a) + kinds_material(b),
    decreases b.len(),
{
    if b.len() == 0 {
        assert(a + b =~= a);
    } else {
        assert((a + b).drop_last() =~= a + b.drop_last());
        lemma_kinds_material_add(a, b.drop_last());
    }
}

proof fn lemma_kinds_material_remove(k: Seq<(Piece, Color)>, i: int)
    requires
        0 <= i < k.len(),
    ensures
        kinds_material(k) == kinds_material(k.remove(i)) + kind_value(k[i]),
{
    let front = k.subrange(0, i);
    let back = k.subrange(i + 1, k.len() as int);
    assert(k =~= front + seq![k[i]] + back);
    assert(k.remove(i) =~= front + back);
    lemma_kinds_material_add(front + seq![k[i]], back);
    lemma_kinds_material_add(front, seq![k[i]]);
    lemma_kinds_material_add(front, back);
    let single = seq![k[i]];
    assert(single.drop_last() =~= Seq::<(Piece, Color)>::empty());
    assert(kinds_material(single.drop_last()) == 0);
    assert(single.last() == k[i]);
    assert(kinds_material(single) == kind_value(k[i]));
}

proof fn lemma_kinds_material_reorder(a: Seq<(Piece, Color)>, b: Seq<(Piece, Color)>)
    requires
        a.to_multiset() == b.to_multiset(),
    ensures
        kinds_material(a) == kinds_material(b),
    decreases a.len(),
{
    broadcast use vstd::seq_lib::group_to_multiset_ensures;

    if a.len() == 0 {
        assert(a.to_multiset().len() == 0);
        assert(b.to_multiset().len() == 0);
        assert(b =~= a);
    } else {
        let x = a.last();
        let a0 = a.drop_last();
        assert(a0.push(x) =~= a);
        assert(a.to_multiset().count(x) > 0);
        assert(b.contains(x));
        let i = choose|i: int| 0 <= i < b.len() && b[i] == x;
        assert(b.remove(i).to_multiset() =~= a0.to_multiset());
        lemma_kinds_material_reorder(a0, b.remove(i));
        lemma_kinds_material_remove(b, i);
    }
}

/// The evaluation depends only on which pieces of which colors are on the board:
/// two lists with the same (piece, color) pairs, in any order and on any squares,
/// have the same material balance.
pub proof fn lemma_material_reorder(s1: Seq<PieceAt>, s2: Seq<PieceAt>)
    requires
        colored_kinds(s1).to_multiset() == colored_kinds(s2).to_multiset(),
    ensures
        material(s1) == material(s2),
{
    lemma_material_of_kinds(s1);
    lemma_material_of_kinds(s2);
    lemma_kinds_material_reorder(colored_kinds(s1), colored_kinds(s2));
}

/// Swapping the colors of all pieces negates the evaluation: a list whose
/// (piece, color) pairs are those of another with every color swapped, in any
/// order and on any squares, has the opposite material balance.
pub proof fn lemma_material_color_mirror(s1: Seq<PieceAt>, s2: Seq<PieceAt>)
    requires
        colored_kinds(s2).to_multiset() == mirrored(colored_kinds(s1)).to_multiset(),
    ensures
        material(s2) == -material(s1),
{
    lemma_material_of_kinds(s1);
    lemma_material_of_kinds(s2);
    lemma_kinds_material_reorder(colored_kinds(s2), mirrored(colored_kinds(s1)));
    lemma_kinds_material_mirror(colored_kinds(s1));
}

/// The piece values, in centipawns: pawn 100, knight 320, bishop 330, rook 500,
/// queen 900, king 20000; each kind is worth more than the one before.
pub proof fn lemma_piece_values()
    ensures
        piece_value(Piece::Pawn) == 100,
        piece_value(Piece::Knight) == 320,
        piece_value(Piece::Bishop) == 330,
        piece_value(Piece::Rook) == 500,
        piece_value(Piece::Queen) == 900,
        piece_value(Piece::King) == 20000,
        piece_value(Piece::Pawn) < piece_value(Piece::Knight) < piece_value(Piece::Bishop)
            < piece_value(Piece::Rook) < piece_value(Piece::Queen) < piece_value(Piece::King),
{
}

/// The evaluation is from White's point of view: White's pieces count for White
/// and Black's against, each worth at least a pawn and at most a king.
pub proof fn lemma_material_sides(s: Seq<PieceAt>)
    ensures
        (forall|i: int| 0 <= i < s.len() ==> #[trigger] s[i].color == Color::White) ==> 100 * s.len()
            <= material(s) <= 20000 * s.len(),
        (forall|i: int| 0 <= i < s.len() ==> #[trigger] s[i].color == Color::Black) ==> -20000
            * s.len() <= material(s) <= -100 * s.len(),
    decreases s.len(),
{
    if s.len() > 0 {
        lemma_material_sides(s.drop_last());
        assert(forall|i: int| 0 <= i < s.len() - 1 ==> s.drop_last()[i] == s[i]);
    }
}

/// The standard set-up: rooks in the corners, knights next to them, then bishops,
/// the queen on the d-file and the king on the e-file; a full rank of pawns in
/// front; Black's position mirrors White's across the middle of the board, and
/// the middle four ranks are empty.
pub proof fn lemma_standard_setup_facts(f: int)
    requires
        0 <= f < 8,
    ensures
        standard_setup(0, 0) == Some((Piece::Rook, Color::White)),
        standard_setup(7, 0) == Some((Piece::Rook, Color::White)),
        standard_setup(1, 0) == Some((Piece::Knight, Color::White)),
        standard_setup(6, 0) == Some((Piece::Knight, Color::White)),
        standard_setup(2, 0) == Some((Piece::Bishop, Color::White)),
        standard_setup(5, 0) == Some((Piece::Bishop, Color::White)),
        standard_setup(3, 0) == Some((Piece::Queen, Color::White)),
        standard_setup(4, 0) == Some((Piece::King, Color::White)),
        standard_setup(f, 1) == Some((Piece::Pawn, Color::White)),
        forall|r: int| 2 <= r < 6 ==> #[trigger] standard_setup(f, r) is None,
        forall|r: int|
            0 <= r < 8 ==> match (#[trigger] standard_setup(f, r), standard_setup(f, 7 - r)) {
                (Some((p, c)), Some((q, d))) => p == q && c == opposite_color(d),
                (None, None) => true,
                _ => false,
            },
{
}

} // verus!
