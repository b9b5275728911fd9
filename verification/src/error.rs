//! What can go wrong while code is generated.

use crate::token::{Span, Token};
use vstd::prelude::*;

verus! {

/// The ways in which code generation fails.
#[derive(Debug, PartialEq, Eq, Clone, Copy, Structural)]
pub enum CodegenErrorKind {
    /// No contract was supplied.
    MissingAst,
    /// The contract defines no macro named `CONSTRUCTOR`.
    MissingConstructor,
    /// A macro refers to a constant that the contract does not define.
    MissingConstantDefinition,
    /// A macro invokes a macro that the contract does not define.
    MissingMacroDefinition,
    /// A statement that is no macro invocation stands where only an invocation
    /// can be expanded, or a macro body holds a statement that cannot be lowered.
    InvalidMacroStatement,
    /// The expansion of an invoked macro failed.
    FailedMacroRecursion,
    /// A macro is invoked while it is being expanded: inlining it would never end.
    CircularMacroReference,
}

/// An error of code generation: its kind and, where known, the place in the
/// source that it is about.
#[derive(Debug, PartialEq, Eq, Clone)]
pub struct CodegenError {
    /// What went wrong.
    pub kind: CodegenErrorKind,
    /// The stretch of source that the error is about.
    pub span: Option<Span>,
    /// The token that the error is about.
    pub token: Option<Token>,
}

impl CodegenError {
    /// An error of the given kind that points at no place in the source.
    pub open spec fn is_bare(self, kind: CodegenErrorKind) -> bool {
        self.kind == kind && self.span is None && self.token is None
    }

    /// An error of the given kind that points at no place in the source.
    pub fn new(kind: CodegenErrorKind) -> (error: Self)
        ensures
            error.is_bare(kind),
    {
        CodegenError { kind, span: None, token: None }
    }
}

} // verus!
