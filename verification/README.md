# my_chess_ql

A bitboard chess move generator with a verified core, written in Verus.

- `src/` is the library, every function proved against its contract: board geometry and
  square names (`bitboard`, `position_helper`, `attacks`), FEN reading (`fen`), piece attacks and
  movements (`pieces`), check and pin analysis (`king_attack_ray_analyzer`,
  `position_analyzer`), what the generated moves respect (`legality`, `king_safety`), making and taking back moves (`move_maker`), what making a move keeps intact (`board_integrity`), counting moves without storing them (`move_count`), move notation and search
  by notation (`game_move`, `game_move_list`, `san`, `move_text`), move counting (`perft`),
  PGN reading (`pgn`), UCI command reading (`uci`), reading Stockfish's move lists (`stockfish`), and the encoding of positions and moves
  for the neural network (`move_encoding`, `position_converter`).
- `tests/` holds the tests of the library.
- `app/` is the engine program around it: command line, UCI loop on stdin/stdout, perft
  benchmark with optional Stockfish cross-check, PGN file reading and the float planes fed
  to the network.
