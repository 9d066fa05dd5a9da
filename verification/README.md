# chess_engine

A UCI chess engine whose core is written in Verus and proved against its
contracts.

- `src/chess`: squares, bitboards, boards, moves, games (making and undoing
  moves, repetition and fifty-move draws), FEN parsing, SAN formatting,
  legal move generation and perft. The generator's output is specified as
  exactly the moves of the `legal_move` predicate (move classes, pins, the
  check mask, castling and en passant), without repeats, with the four
  promotions of a pawn move listed queen, rook, knight, bishop.
- `src/engine/eval`: the tapered evaluation (piece-square tables, material,
  passed pawns, king safety) and the incrementally kept evaluation fields.
- `src/engine/search`: negamax with alpha-beta, quiescence, aspiration
  windows, iterative deepening, the transposition table, killer and history
  tables, the move provider and the time controls. The capture search is
  specified against a recursive value over the game tree (`quiet_value`):
  its score is that value inside the window and a bound outside it, as
  alpha-beta gives it; the same holds of the main search at no depth, and
  at the root one ply deep (`one_ply_value`), which carries over to the
  aspiration search, iterative deepening and the top-level search when the
  depth is limited to one. The aspiration search states the windows it
  searches with (`first_window`, `window_after`).
- `src/chess/movegen`: besides the generator's own predicate `legal_move`,
  the attackers of a square are shown to be the opponent's pieces that
  attack it by their own moves, and the king's steps are shown legal
  exactly when the king is not attacked once the move is played.
- `src/engine/uci`: the UCI command grammar and parser, responses, options
  and the session that turns each command into responses and an action.
- `tests`: scenario tests and tests of the laws on concrete values.
- `app/main.rs`: the program around the library: standard input and
  output, threads for searches, the clock and the coloured progress report.
