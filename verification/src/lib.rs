//! Core rules of the Fablr studio: the project store and what the user interface
//! sees of it, the analysis of a production up to its storyline, the cache of
//! synthesized speech, and the translation of text.

pub mod analysis;
pub mod calendar;
pub mod clock;
pub mod db;
pub mod document;
pub mod error;
pub mod fixtures;
pub mod ids;
pub mod intent;
pub mod json;
pub mod project;
pub mod rows;
pub mod speech;
pub mod storyline;
pub mod table;
pub mod text;
pub mod translate;
