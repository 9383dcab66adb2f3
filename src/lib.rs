//! Personal role ownership: a store that binds each user to the one role they
//! own, a hex color parser, and the decisions behind the role commands.

pub mod color;
pub mod store;
pub mod command;
