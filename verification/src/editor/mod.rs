pub mod command;
pub mod history;
pub mod rope;
pub mod buffer;
pub mod cursor;
pub mod selection;
pub mod document;
pub mod search;
