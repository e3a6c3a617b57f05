//! The diagnostics of the transformation.

use vstd::prelude::*;

verus! {

/// Why a guarded declaration is rejected.
#[derive(Clone, Copy, Debug, PartialEq, Eq, Structural)]
pub enum GuardError {
    /// The declaration is of a kind that cannot carry a `where` clause, or is
    /// none of the kinds that a guard supports.
    UnsupportedDeclaration,
    /// The argument of the guard is neither an expression nor a block.
    InvalidGuardSyntax,
    /// The guard introduces a parameter under an identifier that stands for a
    /// parameter of another kind.
    AmbiguousParameter,
    /// The guard is false for an instantiation. The transformation never
    /// returns this: the compiler raises it, with this message unless the
    /// guard panics with one of its own.
    GuardEvaluationFailed,
}

impl GuardError {
    /// The fixed text of each diagnostic.
    pub open spec fn message_text(self) -> Seq<char> {
        match self {
            GuardError::UnsupportedDeclaration => "guarded items need to support parameter-constraint clauses"@,
            GuardError::InvalidGuardSyntax => "guard must be an expression or parameter-prefixed block"@,
            GuardError::AmbiguousParameter => "guard parameters must keep the kind of the parameters they name"@,
            GuardError::GuardEvaluationFailed => "guard evaluated to false"@,
        }
    }

    /// The text of the diagnostic.
    pub fn message(&self) -> (text: String)
        ensures
            text@ == self.message_text(),
    {
        match self {
            GuardError::UnsupportedDeclaration => String::from_str(
                "guarded items need to support parameter-constraint clauses",
            ),
            GuardError::InvalidGuardSyntax => String::from_str(
                "guard must be an expression or parameter-prefixed block",
            ),
            GuardError::AmbiguousParameter => String::from_str(
                "guard parameters must keep the kind of the parameters they name",
            ),
            GuardError::GuardEvaluationFailed => String::from_str("guard evaluated to false"),
        }
    }
}

} // verus!
