pub mod value;
pub mod solution;
pub mod from_model;
