//! What the full-screen front end needs from the library.

pub mod tabs;
