# chess

A classical chess engine library whose core is verified with Verus.

- `board`, `bitboard`, `square`, `piece`: the board as twelve bitboards with
  stacks of clocks, en passant targets and castle rights; every operation states
  what it does to the board's mathematical model.
- `chess_move`: standard moves, promotions, en passant captures and castles.
  Applying a move and undoing it restores the board exactly
  (`chess_move::chess_move::lemma_undo_reverts_apply`). Algebraic and UCI notation.
- `targets`: the squares each piece attacks, and every square a side attacks.
- `evaluate`: material, piece-square tables, pawn structure, piece activity,
  king safety and mobility, tapered by game phase; check, checkmate and the end
  of the game; the score used by the search. Black's pawns score as the mirror
  image of White's (`evaluate::pawn_symmetry`), and exchanging the two sides
  negates the material score (`evaluate::symmetry`).
- `chess_search`: the history table and move ordering (MVV-LVA, promotions,
  history heuristic, piece priority).
- `game`, `cli`, `input_handler`, `diagnostics`, `text`: configuration, commands,
  the text frame of the board, number formatting, parsing of typed moves, the
  choice of benchmark positions, switching between game modes, the UCI text
  exchanged with Stockfish and the Elo ladder played against it.

`app/` holds what talks to the outside world: command-line arguments, standard
input, terminal output, the Stockfish process, error messages and per-thread
search state.
