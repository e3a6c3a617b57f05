//! Compile-time guards on generic and const parameters.
//!
//! A guard is a boolean predicate over the parameters of a declaration. The
//! transformer in this crate rewrites a guarded declaration so that every
//! instantiation for which the predicate is false is rejected when it is
//! compiled. The rewritten declaration carries one more bound in its `where`
//! clause: `Guard<{ .. }>: Protect`, which only `Guard<true>` meets.

use vstd::prelude::*;
use crate::declaration::{declaration_of, Declaration};
use crate::emitter::{
    addition, guard_params_of, lemma_emission_keeps_declaration, text_result_view, transform,
    transformed,
};
use crate::lexical::joined;
use crate::error::GuardError;
use crate::guard_spec::{guard_spec_of, GuardSpec};

pub mod declaration;
pub mod emitter;
pub mod error;
pub mod guard_spec;
pub mod lexical;
pub mod params;
pub mod syntax;

verus! {

/// The witness: a marker type keyed by the outcome of a guard.
pub struct Guard<const U: bool>;

/// The capability that only the witness keyed by `true` has.
pub trait Protect {
}

impl Protect for Guard<true> {
}

/// What the declaration `stream` becomes under the guard `attr`. The
/// declaration is read first: where both texts are at fault, its error is the
/// one reported.
pub open spec fn guard_output(attr: Seq<char>, stream: Seq<char>) -> Result<Seq<char>, GuardError> {
    match declaration_of(stream) {
        Err(error) => Err(error),
        Ok(declaration) => match guard_spec_of(attr) {
            Err(error) => Err(error),
            Ok(guard) => transformed(declaration, guard),
        },
    }
}

/// A guard adds to a declaration and takes nothing from it: whatever
/// `guard` returns for a declaration is that declaration as it was taken
/// apart, head and `where` clause and tail in their order, with the addition
/// of the guard between the clause and the tail.
pub proof fn lemma_guard_keeps_declaration(attr: Seq<char>, stream: Seq<char>)
    ensures
        guard_output(attr, stream) is Ok ==> declaration_of(stream) is Ok && guard_spec_of(attr) is Ok
            && guard_params_of(declaration_of(stream)->Ok_0.generics, guard_spec_of(attr)->Ok_0)
            is Some,
        guard_output(attr, stream) is Ok ==> ({
            let declaration = declaration_of(stream)->Ok_0;
            let guard = guard_spec_of(attr)->Ok_0;
            let params = guard_params_of(declaration.generics, guard)->0;
            guard_output(attr, stream)->Ok_0 == joined(
                joined(
                    joined(declaration.head, declaration.where_clause),
                    addition(declaration, params, guard.value()),
                ),
                declaration.tail,
            )
        }),
{
    if guard_output(attr, stream) is Ok {
        let declaration = declaration_of(stream)->Ok_0;
        let guard = guard_spec_of(attr)->Ok_0;
        let params = guard_params_of(declaration.generics, guard)->0;
        lemma_emission_keeps_declaration(declaration, params, guard.value());
    }
}

/// Rewrites the declaration `stream` so that it holds the guard `attr`: every
/// instantiation for which the guard is false is rejected when it is
/// compiled, and every other compiles as the declaration did without it.
///
/// Both arguments are token text, and so is the result. Nothing is rewritten
/// where a text is at fault: the error says which.
pub fn guard(attr: &str, stream: &str) -> (result: Result<String, GuardError>)
    ensures
        text_result_view(result) == guard_output(attr@, stream@),
        result is Err ==> result != Err::<String, GuardError>(GuardError::GuardEvaluationFailed),
{
    let declaration = match Declaration::parse(stream) {
        Ok(declaration) => declaration,
        Err(error) => {
            return Err(error);
        },
    };
    let guard = match GuardSpec::parse(attr) {
        Ok(guard) => guard,
        Err(error) => {
            return Err(error);
        },
    };
    transform(&declaration, &guard)
}

} // verus!
