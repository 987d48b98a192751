//! Algorithmic generation of dissonant note sequences and their encoding
//! as a single-track Standard MIDI File.

mod chance;
pub mod generator;
pub mod markov;
pub mod mode;
pub mod note;
pub mod track;

pub use generator::{generate_markov_notes, generate_random_notes};
pub use markov::MarkovChain;
pub use note::Note;
