//! A small interpreter for a parenthesized symbolic-expression language:
//! a lexer, a recursive-descent parser into left-leaning pair trees, a stack
//! of binding frames and an evaluator with three special forms.
pub mod error;
pub mod lexer;
pub mod expr;
pub mod consts;
pub mod builtins;
pub mod math;
pub mod intrinsics;
pub mod env;
pub mod eval;
pub mod parser;
pub mod laws;

pub use error::LispError;
pub use env::Env;
pub use expr::Expr;
pub use lexer::{Lexer, Token};
pub use parser::Parser;
pub use eval::Evaluator;
