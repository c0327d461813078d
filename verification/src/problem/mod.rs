pub mod rational;
pub mod typing;
pub mod ids;
pub mod parameter;
pub mod expression;
pub mod instance;
pub mod variable;
pub mod function;
pub mod naming;
pub mod attribute;
pub mod method;
pub mod structure;
pub mod class;
pub mod constraint;
pub mod search;
pub mod problem;
pub mod hierarchy;
pub mod entry;
pub mod type_entry;
pub mod hierarchy2;
pub mod relations;
pub mod valid;
pub mod results;
pub mod resolve_types;
pub mod type_pass;
pub mod problem_types;
pub mod resolve_exprs;
pub mod expr_pass;
pub mod type_checks;
pub mod expr_checks;
pub mod decl_checks;
pub mod lang;
pub mod validate;
pub mod ordered;
