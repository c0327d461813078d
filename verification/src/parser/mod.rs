use crate::report::failure;
pub mod position;
pub mod failure;
