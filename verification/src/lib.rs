//! Catch the cat-napper: the rules and state of a small detective game.
//!
//! A culprit hides among nine suspects; each suspect stands at a place with an
//! item. Interviewed suspects give clues, some of them lies. The library deals
//! the cards, keeps the state of a game and decides every move; the program
//! around it reads the keyboard and prints.

pub mod nouns;
pub mod chance;
pub mod game;
pub mod text;
pub mod play;
pub mod laws;
