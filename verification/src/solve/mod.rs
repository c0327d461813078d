pub mod term;
pub mod encoding;
pub mod smt;
pub mod script;
pub mod solve;
pub mod combine;
pub mod response;
pub mod meaning;
