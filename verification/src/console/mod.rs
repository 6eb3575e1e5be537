//! What the console front end needs from the library.

pub mod editor;
