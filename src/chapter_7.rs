pub mod evaluator;
pub mod parser;
pub mod term;

pub use evaluator::{eval, eval1, eval_count};
pub use parser::parse;
