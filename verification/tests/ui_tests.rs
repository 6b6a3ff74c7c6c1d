use vdmo::gui_app::{
    piece_glyph, side_name, sq_name, square_at_cell, square_fill, SquareFill, VdmoChessGuiApp,
};
use vdmo::ui_board::{coord_to_sq, sq_to_coord, Piece, PieceKind, Side, UiBoard};

fn wp(kind: PieceKind) -> Option<Piece> {
    Some(Piece { side: Side::White, kind })
}

fn bp(kind: PieceKind) -> Option<Piece> {
    Some(Piece { side: Side::Black, kind })
}

#[test]
fn other_side() {
    assert_eq!(Side::White.other(), Side::Black);
    assert_eq!(Side::Black.other(), Side::White);
    assert_eq!(Side::White.other().other(), Side::White);
}

#[test]
fn coordinates() {
    assert_eq!(coord_to_sq(0, 0), Some(0));
    assert_eq!(coord_to_sq(7, 7), Some(63));
    assert_eq!(coord_to_sq(4, 3), Some(28));
    assert_eq!(coord_to_sq(8, 0), None);
    assert_eq!(coord_to_sq(0, -1), None);
    assert_eq!(UiBoard::idx(4, 3), Some(28));
    assert_eq!(UiBoard::idx(-1, 3), None);
    assert_eq!(sq_to_coord(28), (4, 3));
    assert_eq!(sq_to_coord(63), (7, 7));
    for sq in 0..64usize {
        let (f, r) = sq_to_coord(sq);
        assert_eq!(coord_to_sq(f, r), Some(sq));
    }
}

#[test]
fn square_names() {
    assert_eq!(sq_name(4, 3), "e4");
    assert_eq!(sq_name(0, 0), "a1");
    assert_eq!(sq_name(7, 7), "h8");
}

#[test]
fn glyphs() {
    assert_eq!(piece_glyph(Piece { side: Side::White, kind: PieceKind::King }), "♔");
    assert_eq!(piece_glyph(Piece { side: Side::Black, kind: PieceKind::Pawn }), "♟");
    assert_eq!(piece_glyph(Piece { side: Side::Black, kind: PieceKind::Knight }), "♞");
}

#[test]
fn startpos_layout() {
    let b = UiBoard::startpos();
    let back = [
        PieceKind::Rook,
        PieceKind::Knight,
        PieceKind::Bishop,
        PieceKind::Queen,
        PieceKind::King,
        PieceKind::Bishop,
        PieceKind::Knight,
        PieceKind::Rook,
    ];
    for f in 0..8 {
        assert_eq!(b.get(f, 0), wp(back[f as usize]));
        assert_eq!(b.get(f, 1), wp(PieceKind::Pawn));
        assert_eq!(b.get(f, 6), bp(PieceKind::Pawn));
        assert_eq!(b.get(f, 7), bp(back[f as usize]));
        for r in 2..6 {
            assert_eq!(b.get(f, r), None);
        }
    }
    assert_eq!(b.get(8, 0), None);
}

#[test]
fn empty_board_and_set_get() {
    let mut b = UiBoard::empty();
    for sq in 0..64 {
        assert_eq!(b.get_sq(sq), None);
    }
    b.set(2, 5, bp(PieceKind::Bishop));
    assert_eq!(b.get(2, 5), bp(PieceKind::Bishop));
    assert_eq!(b.get_sq(42), bp(PieceKind::Bishop));
    b.set(9, 5, wp(PieceKind::Queen));
    assert_eq!(b.get(1, 5), None);
    b.set_sq(0, wp(PieceKind::Rook));
    assert_eq!(b.get(0, 0), wp(PieceKind::Rook));
}

#[test]
fn move_piece_results() {
    let mut b = UiBoard::startpos();
    assert_eq!(b.move_piece(64, 0), Err("square out of range"));
    assert_eq!(b.move_piece(0, 64), Err("square out of range"));
    assert_eq!(b.move_piece(30, 31), Err("no piece on from-square"));
    assert_eq!(b.move_piece(12, 28), Ok(()));
    assert_eq!(b.get_sq(12), None);
    assert_eq!(b.get_sq(28), wp(PieceKind::Pawn));
    // a capture replaces what stood on the destination
    assert_eq!(b.move_piece(28, 52), Ok(()));
    assert_eq!(b.get_sq(52), wp(PieceKind::Pawn));
}

#[test]
fn castle_king_side() {
    let mut b = UiBoard::startpos();
    b.set_sq(5, None);
    b.set_sq(6, None);
    assert_eq!(b.try_castle(4, 6), Ok(true));
    assert_eq!(b.get_sq(4), None);
    assert_eq!(b.get_sq(6), wp(PieceKind::King));
    assert_eq!(b.get_sq(7), None);
    assert_eq!(b.get_sq(5), wp(PieceKind::Rook));
}

#[test]
fn castle_queen_side_black() {
    let mut b = UiBoard::startpos();
    b.set_sq(57, None);
    b.set_sq(58, None);
    b.set_sq(59, None);
    assert_eq!(b.try_castle(60, 58), Ok(true));
    assert_eq!(b.get_sq(58), bp(PieceKind::King));
    assert_eq!(b.get_sq(59), bp(PieceKind::Rook));
    assert_eq!(b.get_sq(56), None);
    assert_eq!(b.get_sq(60), None);
}

#[test]
fn castle_not_a_castling_move() {
    let mut b = UiBoard::startpos();
    assert_eq!(b.try_castle(12, 28), Ok(false));
    assert_eq!(b.try_castle(4, 12), Ok(false));
    assert_eq!(b.try_castle(4, 5), Ok(false));
    assert_eq!(b.try_castle(20, 28), Err("no piece on from-square"));
    assert_eq!(b.get_sq(4), wp(PieceKind::King));
}

#[test]
fn castle_rook_errors() {
    let mut b = UiBoard::empty();
    b.set_sq(4, wp(PieceKind::King));
    assert_eq!(b.try_castle(4, 6), Err("rook missing"));
    b.set_sq(7, bp(PieceKind::Rook));
    assert_eq!(b.try_castle(4, 6), Err("rook missing for castling"));
    b.set_sq(7, wp(PieceKind::Knight));
    assert_eq!(b.try_castle(4, 6), Err("rook missing for castling"));
    assert_eq!(b.get_sq(4), wp(PieceKind::King));
    assert_eq!(b.get_sq(6), None);
}

#[test]
fn app_starts_in_start_position() {
    let app = VdmoChessGuiApp::new();
    assert_eq!(app.side_to_move(), Side::White);
    assert_eq!(app.selected(), None);
    assert_eq!(app.status(), "Click a piece, then click a destination square.");
    assert!(!app.flip_board());
    assert_eq!(app.board().get(4, 0), wp(PieceKind::King));
}

#[test]
fn click_select_and_move() {
    let mut app = VdmoChessGuiApp::new();
    app.try_click_square(12);
    assert_eq!(app.selected(), Some(12));
    assert_eq!(app.status(), "Selected ♙.");
    app.try_click_square(28);
    assert_eq!(app.selected(), None);
    assert_eq!(app.side_to_move(), Side::Black);
    assert_eq!(app.status(), "Moved e2 -> e4. (No legality checking)");
    assert_eq!(app.board().get_sq(28), wp(PieceKind::Pawn));
    assert_eq!(app.board().get_sq(12), None);
}

#[test]
fn click_wrong_side_and_empty() {
    let mut app = VdmoChessGuiApp::new();
    app.try_click_square(52);
    assert_eq!(app.status(), "It's not that side's turn (UI only).");
    assert_eq!(app.selected(), None);
    app.try_click_square(30);
    assert_eq!(app.status(), "No piece selected.");
}

#[test]
fn click_same_square_clears() {
    let mut app = VdmoChessGuiApp::new();
    app.try_click_square(6);
    assert_eq!(app.status(), "Selected ♘.");
    app.try_click_square(6);
    assert_eq!(app.selected(), None);
    assert_eq!(app.status(), "Selection cleared.");
}

#[test]
fn click_friendly_piece_reselects() {
    let mut app = VdmoChessGuiApp::new();
    app.try_click_square(12);
    app.try_click_square(3);
    assert_eq!(app.selected(), Some(3));
    assert_eq!(app.status(), "Selected ♕.");
    assert_eq!(app.side_to_move(), Side::White);
}

#[test]
fn click_capture() {
    let mut app = VdmoChessGuiApp::new();
    app.try_click_square(11);
    app.try_click_square(51);
    assert_eq!(app.status(), "Moved d2 -> d7 (capture if occupied). (No legality checking)");
    assert_eq!(app.board().get_sq(51), wp(PieceKind::Pawn));
    assert_eq!(app.side_to_move(), Side::Black);
}

#[test]
fn click_reselect_then_move() {
    let mut app = VdmoChessGuiApp::new();
    app.try_click_square(4);
    app.try_click_square(6);
    // g1 holds a knight of the same side: the king re-selects it
    assert_eq!(app.selected(), Some(6));
    let mut app = VdmoChessGuiApp::new();
    app.try_click_square(4);
    app.try_click_square(12);
    // e2 holds a friendly pawn
    assert_eq!(app.selected(), Some(12));
    app.try_click_square(4);
    assert_eq!(app.selected(), Some(4));
    app.try_click_square(22);
    assert_eq!(app.status(), "Moved e1 -> g3. (No legality checking)");
}

#[test]
fn click_move_failure_message() {
    let mut app = VdmoChessGuiApp::new();
    // clear f1 and g1, then put a black rook on h1: castling fails
    app.try_click_square(5);
    app.try_click_square(37);
    app.try_click_square(62);
    app.try_click_square(45);
    app.try_click_square(6);
    app.try_click_square(38);
    app.try_click_square(63);
    app.try_click_square(7);
    assert_eq!(app.board().get_sq(7), bp(PieceKind::Rook));
    app.try_click_square(4);
    app.try_click_square(6);
    assert!(app.status().ends_with("\nMove failed: rook missing for castling"));
    assert!(app.status().starts_with("Moved f1 -> f5. (No legality checking)\n"));
    assert_eq!(app.selected(), Some(4));
    assert_eq!(app.side_to_move(), Side::White);
}

#[test]
fn click_castles() {
    let mut app = VdmoChessGuiApp::new();
    app.try_click_square(5);
    app.try_click_square(37);
    app.try_click_square(52);
    app.try_click_square(44);
    app.try_click_square(6);
    app.try_click_square(21);
    app.try_click_square(44);
    app.try_click_square(36);
    app.try_click_square(4);
    app.try_click_square(6);
    assert!(app.status().ends_with("\nMoved e1 -> g1. (No legality checking)"));
    assert_eq!(app.status().lines().count(), 5);
    assert_eq!(app.board().get_sq(6), wp(PieceKind::King));
    assert_eq!(app.board().get_sq(5), wp(PieceKind::Rook));
    assert_eq!(app.board().get_sq(7), None);
}

#[test]
fn reset_restores_start() {
    let mut app = VdmoChessGuiApp::new();
    app.set_flip_board(true);
    app.try_click_square(12);
    app.try_click_square(28);
    app.reset();
    assert_eq!(app.status(), "Reset to start position.");
    assert_eq!(app.side_to_move(), Side::White);
    assert_eq!(app.selected(), None);
    assert!(app.flip_board());
    assert_eq!(app.board().get_sq(12), wp(PieceKind::Pawn));
    assert_eq!(app.board().get_sq(28), None);
}

#[test]
fn status_keeps_move_history() {
    let mut app = VdmoChessGuiApp::new();
    app.try_click_square(12);
    app.try_click_square(28);
    app.try_click_square(52);
    app.try_click_square(36);
    assert_eq!(
        app.status(),
        "Moved e2 -> e4. (No legality checking)\nMoved e7 -> e5. (No legality checking)"
    );
    app.try_click_square(6);
    assert_eq!(
        app.status(),
        "Moved e2 -> e4. (No legality checking)\nMoved e7 -> e5. (No legality checking)\nSelected ♘."
    );
    app.try_click_square(30);
    app.try_click_square(62);
    assert!(app.status().ends_with("Moved g1 -> g4. (No legality checking)\nSelected ♞."));
    app.try_click_square(62);
    assert!(app.status().ends_with("Moved g1 -> g4. (No legality checking)\nSelection cleared."));
    app.reset();
    assert_eq!(app.status(), "Reset to start position.");
    app.try_click_square(30);
    assert_eq!(app.status(), "No piece selected.");
}

#[test]
fn cells_to_squares() {
    // unflipped: a8 at the top left, h1 at the bottom right
    assert_eq!(square_at_cell(false, 0, 0), 56);
    assert_eq!(square_at_cell(false, 7, 7), 7);
    assert_eq!(square_at_cell(false, 7, 0), 0);
    // flipped: h1 at the top left, a8 at the bottom right
    assert_eq!(square_at_cell(true, 0, 0), 7);
    assert_eq!(square_at_cell(true, 7, 7), 56);
    assert_eq!(square_at_cell(true, 0, 7), 0);
}

#[test]
fn square_fills() {
    assert_eq!(square_fill(0, None), SquareFill::Light);
    assert_eq!(square_fill(1, None), SquareFill::Dark);
    assert_eq!(square_fill(8, None), SquareFill::Dark);
    assert_eq!(square_fill(63, None), SquareFill::Light);
    assert_eq!(square_fill(1, Some(1)), SquareFill::Selected);
    assert_eq!(square_fill(1, Some(2)), SquareFill::Dark);
}

#[test]
fn square_texts_and_side_names() {
    let app = VdmoChessGuiApp::new();
    assert_eq!(app.square_text(4), "♔");
    assert_eq!(app.square_text(59), "♛");
    assert_eq!(app.square_text(30), " ");
    assert_eq!(side_name(Side::White), "White");
    assert_eq!(side_name(Side::Black), "Black");
}

#[test]
fn move_and_move_back_restores() {
    let mut b = UiBoard::startpos();
    let before: Vec<_> = (0..64).map(|i| b.get_sq(i)).collect();
    assert_eq!(b.move_piece(1, 18), Ok(()));
    assert_eq!(b.move_piece(18, 1), Ok(()));
    let after: Vec<_> = (0..64).map(|i| b.get_sq(i)).collect();
    assert_eq!(before, after);
}

#[test]
fn set_what_get_reads_changes_nothing() {
    let mut b = UiBoard::startpos();
    let before: Vec<_> = (0..64).map(|i| b.get_sq(i)).collect();
    let p = b.get(3, 0);
    b.set(3, 0, p);
    let q = b.get(9, 9);
    b.set(9, 9, q);
    let after: Vec<_> = (0..64).map(|i| b.get_sq(i)).collect();
    assert_eq!(before, after);
}

#[test]
fn capture_by_queen_status() {
    let mut app = VdmoChessGuiApp::new();
    app.try_click_square(3);
    app.try_click_square(59);
    assert_eq!(app.status(), "Moved d1 -> d8 (capture if occupied). (No legality checking)");
    assert_eq!(app.board().get_sq(59), wp(PieceKind::Queen));
    assert_eq!(app.board().get_sq(3), None);
}

#[test]
fn clones_keep_everything() {
    let mut b = UiBoard::startpos();
    b.set_sq(5, None);
    let c = b.clone();
    for sq in 0..64 {
        assert_eq!(b.get_sq(sq), c.get_sq(sq));
    }
}
