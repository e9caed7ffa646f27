# zophie

A detective game: someone among nine suspects has taken Zophie the cat. Each
suspect stands at one of nine places holding one of nine items; three of them
lie. The detective rides a taxi from place to place, asks suspects about
each other and about the items they have seen, and has three accusations and
five minutes to name the culprit.

- `src/` is the verified library (Verus): the nouns of the game
  (`nouns`), the random draws (`chance`, over `rand`), the deal of a new game
  and its state invariant (`game`), the meaning of typed input (`text`), the
  moves of a turn (`play`) and the laws about what the clues are worth
  (`laws`).
- `app/main.rs` is the terminal program: keyboard, screen, clock.
- `tests/` runs the library on concrete games.
