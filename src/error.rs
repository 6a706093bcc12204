use vstd::prelude::*;

verus! {

/// Every way in which reading or evaluating a form can fail.
#[derive(Debug, Clone, Copy, PartialEq, Eq, Structural)]
pub enum LispError {
    /// The token stream does not start with an open parenthesis.
    ExpectedOpenParen,
    /// The token stream ended before the matching close parenthesis.
    UnexpectedEnd,
    /// A symbol was looked up that no frame binds.
    UndefinedSymbol,
    /// A call passed fewer arguments than the function declares parameters.
    ArityMismatch,
    /// The target of `apply` is not bound to a `(lambda (params) body)` form.
    NotCallable,
    /// A special form has a malformed name or parameter position.
    MalformedForm,
    /// An arithmetic primitive got an operand that is not an integer.
    TypeMismatch,
    /// Division by zero.
    DivisionByZero,
    /// The result of an arithmetic primitive does not fit in 32 bits.
    Overflow,
    /// Evaluation nested deeper than the depth budget allows.
    DepthExceeded,
}

} // verus!
