//! Persistence-control core of a flashcard application: one shared database
//! connection handed to every sub-API, and an on-demand backup whose
//! destination path is resolved from an optional request.

pub mod api;
pub mod clock;
pub mod json;
pub mod path;
pub mod text;
