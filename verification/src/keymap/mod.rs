pub mod mode;
pub mod workspace_keys;
pub mod operator;
pub mod motion;

pub mod parser;
pub mod text_object;
pub mod bindings;
