# chess3d

The rules, saved-session bookkeeping and shell logic of a local chess game, written in Verus
with their contracts proved.

## Layout

- `src/` — the verified library.
  - `pieces`, `square`, `mv`, `castling`, `board`, `status`, `rules`: the vocabulary of the game
    and the spec functions that define legal play (`rules::spec_is_legal`, `spec_apply`,
    `spec_status`, `spec_fen`).
  - `game`: `GameState` with FEN reading and writing, move generation (no move listed twice
    unless a legal castling move coincides with a single king step), move application and the game status,
    each proved against `rules`.
  - `laws`, `fen_roundtrip`: what holds across moves (turn passes, castling rights only shrink,
    clocks, piece and king counts, no king is ever captured) and that writing a position as FEN
    and reading it back gives the position again.
  - `engine`: the engine request/response contract and a scripted engine.
  - `persistence`: snapshots, settings, slot ids and the bookkeeping of the save store; the file
    I/O itself lives in `app/`.
  - `shell`: screens, menus, clicks and keys, the match session, the HUD wording, the
    automation snapshot and the decisions taken around each answer of the store.
  - `testing`: the move checker, move strategies (random ones through `rand`), the game oracle,
    and the proof that legal play from a sound position never trips the checker.
- `tests/` — the tests, run against the compiled library.
- `app/` — a text front end: a local match on standard input with saves on disk, and a batch of
  random games written out as JSON reports.
