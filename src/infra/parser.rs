//! HTML tokenizing, tree building, serialization and element selection.

pub mod html;
pub mod htmler_adapter;
pub mod serialize;
pub mod streaming_adapter;
pub mod tokens;
pub mod vdom;
