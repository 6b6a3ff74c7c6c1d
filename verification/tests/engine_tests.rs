use vdmo::{Board, Color, Piece};

#[test]
fn starting_material() {
    assert_eq!(Board::starting().material_eval(), 0);
}

#[test]
fn starting_side_to_move_is_white() {
    assert_eq!(Board::starting().side_to_move(), Color::White);
}

#[test]
fn starting_back_ranks() {
    let b = Board::starting();
    let back = [
        Piece::Rook,
        Piece::Knight,
        Piece::Bishop,
        Piece::Queen,
        Piece::King,
        Piece::Bishop,
        Piece::Knight,
        Piece::Rook,
    ];
    for f in 0..8u8 {
        let w = b.at(f, 0).expect("white back-rank piece");
        assert_eq!(w.piece, back[f as usize]);
        assert_eq!(w.color, Color::White);
        assert_eq!((w.sq.file, w.sq.rank), (f, 0));
        let k = b.at(f, 7).expect("black back-rank piece");
        assert_eq!(k.piece, back[f as usize]);
        assert_eq!(k.color, Color::Black);
        assert_eq!((k.sq.file, k.sq.rank), (f, 7));
    }
}

#[test]
fn starting_pawns_and_empty_middle() {
    let b = Board::starting();
    for f in 0..8u8 {
        let w = b.at(f, 1).expect("white pawn");
        assert_eq!((w.piece, w.color), (Piece::Pawn, Color::White));
        let k = b.at(f, 6).expect("black pawn");
        assert_eq!((k.piece, k.color), (Piece::Pawn, Color::Black));
        for r in 2..6u8 {
            assert!(b.at(f, r).is_none());
        }
    }
}

#[test]
fn at_off_the_board_is_none() {
    let b = Board::starting();
    assert!(b.at(8, 0).is_none());
    assert!(b.at(0, 8).is_none());
    assert!(b.at(255, 255).is_none());
}

#[test]
fn king_and_queen_squares() {
    let b = Board::starting();
    let wk = b.at(4, 0).unwrap();
    assert_eq!((wk.piece, wk.color), (Piece::King, Color::White));
    let bq = b.at(3, 7).unwrap();
    assert_eq!((bq.piece, bq.color), (Piece::Queen, Color::Black));
}

#[test]
fn cloned_board_evaluates_the_same() {
    let b = Board::starting();
    let c = b.clone();
    assert_eq!(c.material_eval(), 0);
    assert_eq!(c.side_to_move(), Color::White);
}
