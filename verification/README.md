# vdmo

A small chess library verified with Verus.

- `src/engine.rs`: the engine board (`Board`, `Piece`, `Color`, `Square`, `PieceAt`),
  the standard starting position, square lookup and material evaluation.
- `src/ui_board.rs`: the 64-square board of the graphical front end, coordinates,
  direct moves and castling by a king move.
- `src/gui_app.rs`: the front end's click-to-move rules, the status text with the
  move history, and what each board cell shows (square, fill, glyph).
- `app/main.rs`: the window (eframe/egui), which draws the library's state and
  forwards clicks to it.
