use crate::load::load;
pub mod parser;
pub mod text;
pub mod problem;
pub mod error;
pub mod error_text;
pub mod report;
pub mod solve;
pub mod solution;
pub mod load;
