# chessbot

A voice-driven chess coach, verified with Verus.

`src/` is the library. Its functions are verified, except the trusted wrappers that call
`shakmaty` (in `chess`) and std's string collection and lower-casing (in `text`); their
contracts are stated beside them and believed, not proved:

- `text`: character-level helpers (trimming, replacing, decimal text) specified over `Seq<char>`.
- `voice`: the sentence spoken for a move, and the rewriting of a spoken move into notation.
- `notation`: candidate spellings of a typed move, evaluation text, and the saved game
  record: a standard PGN text with the seven tag pairs, the numbered moves and the result.
- `board`: pieces, the board, which pieces attack a square, the board diagram.
- `tactics`: the coach's sentence describing the idea of a move.
- `engine`: UCI commands for the engine and the reading of its search output.
- `review`: grading moves by evaluation loss, live and after the game.
- `session`: the settings chosen at the start and the commands typed during a game.
- `chess`: the rules of chess from `shakmaty`, reached through trusted wrappers whose results
  are named by uninterpreted functions; positions travel as FEN text and moves as UCI text.
  It also keeps the record of a game in progress (moves, notation, evaluations, position),
  whose lists stay aligned through every move and take-back, and the review's listing by category.

`app/main.rs` is the program: terminal, speech (Termux), the Stockfish process, the game loop,
and the floating-point accuracy and rating estimate of the review.
