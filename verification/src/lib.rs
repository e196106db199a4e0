pub mod contributors;
pub mod order;
pub mod text;
pub mod command;
pub mod error;
pub mod git;
pub mod summary;
pub mod picker;
pub mod screen;
pub mod session;
pub mod fuzzy;
