pub mod diagnostics;
pub mod framing;
pub mod hover;
pub mod manager;
pub mod request;
pub mod symbols;
