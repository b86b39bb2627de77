//! What the HTTP layer needs from the library.

pub mod model;
