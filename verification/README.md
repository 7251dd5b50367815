# timecat

A chess library whose behaviour is stated in contracts and proved with Verus: bitboards and
squares, positions and their FEN text, legal move generation and perft, making and taking
back moves over a game with repetition counting, opening books in the polyglot record
format (keyed by this library's own position hash, not polyglot's), UCI move text,
the engine's command language, the clocks that limit a search, and the alpha-beta search
itself (with iterative deepening and self-play) over an evaluation the engine is given.

Layout:

- `src/` — the verified library. `position*.rs`, `move_generator.rs` and `perft.rs` hold the
  rules of chess and the move generator; `fen*.rs`, `builder.rs` and `uci.rs` read and write
  text; `board.rs` is a game with its history; `polyglot*.rs` reads and writes opening
  books; `parse.rs` and `command_text.rs` read engine commands; `timer.rs` keeps time; `search.rs`
  searches, with the killer and history moves of `sort.rs`, and `search_value.rs` states the
  score each search computes as recursive functions over the game.
- `src/laws.rs`, `src/fen_laws.rs` and `src/unique_moves.rs` state and prove properties that
  span several operations: mirrors undo themselves, FEN text reads back to the position it
  was written from, no legal move exposes the mover's king, each legal move is generated
  once, perft to depth one counts the legal moves, and the material counted by masks is the
  material of each color.
- `tests/` — tests run against the compiled library.
- `app/` — a command-line program around the library: it plays moves given as arguments,
  counts perft, lists book moves, or reads engine commands from the standard input, searching
  on `go` and playing itself on `selfplay` with the library's material evaluation.
