//! Turns a LaTeX-like source with `%Q` / `%R` / `%F` card markers into the
//! pieces of a flashcard deck: a marker parser that splits the source into a
//! shared header and question/answer cards, collision-free artifact naming,
//! standalone-document assembly for each fragment, a state machine for the
//! three-stage render pipeline, and the deck-assembly step that turns rendered
//! images into notes of a packaged deck.

pub mod deck;
pub mod document;
pub mod lines;
pub mod naming;
pub mod parser;
pub mod pipeline;
