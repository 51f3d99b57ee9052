pub mod surface;
pub mod window;
pub mod welcome;
pub mod input;
pub mod explorer;
pub mod style;
pub mod search;
pub mod pointer;
