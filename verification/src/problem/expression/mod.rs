use crate::problem::expression::every::every;
pub mod expr;
pub mod is_same;
pub mod typ;
pub mod every;
pub mod resolve_type;
pub mod resolve;
pub mod check_type;
pub mod param_size;
pub mod substitute;
pub mod type_inference;
pub mod to_lang;
pub mod position;
