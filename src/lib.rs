//! Adds audio markers to the notes of a flashcard-deck archive and merges
//! audio files into the archive's media store.
pub mod archive;
pub mod database;
pub mod domains;
pub mod error;
pub mod laws;
pub mod manifest;
pub mod text;
