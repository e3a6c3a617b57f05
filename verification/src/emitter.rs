//! The rewritten declaration: the declaration as it was, with one more bound
//! in its `where` clause.
//!
//! The bound is `const_guards::Guard<{ .. }>: const_guards::Protect`. Between
//! the braces stand a `const fn` that evaluates the guard, and a call of it.
//! Only `Guard<true>` implements `Protect`, so an instantiation for which the
//! function returns `false` (it panics instead) does not compile.

use vstd::prelude::*;
use crate::declaration::{Declaration, DeclarationView};
use crate::error::GuardError;
use crate::guard_spec::{GuardSpec, GuardSpecView};
use crate::lexical::{
    ends_with_comma, joined, lemma_joined_associative, plain_ident, push_piece, strip_raw,
};
use crate::params::{
    declaration_list, ident_list, kinds_clash, merge_generic_params, merged_set, param_idents,
    param_list, views, GenericParam, ParamView,
};

verus! {

/// What leads from the `where` clause that a declaration came with to one more
/// bound: the keyword where there was no clause, a comma where the clause
/// does not end with one, and nothing where it does.
pub open spec fn clause_extension(where_clause: Seq<char>) -> Seq<char> {
    if where_clause.len() == 0 {
        "where"@
    } else if where_clause.last() == ',' {
        Seq::empty()
    } else {
        ","@
    }
}

/// The name of the function that evaluates the guard of a declaration.
pub open spec fn guard_fn_name(ident: Seq<char>) -> Seq<char> {
    "_"@ + plain_ident(ident) + "_guard"@
}

/// The bound that holds exactly where the guard does: the function `name`,
/// declared with `params` and called with their identifiers, evaluates
/// `guard` and panics where it is false.
pub open spec fn witness_bound(name: Seq<char>, params: Seq<ParamView>, guard: Seq<char>) -> Seq<
    char,
> {
    "const_guards::Guard<{ const fn "@ + name + "<"@ + declaration_list(params)
        + ">() -> bool { if !"@ + guard + " { panic!(\""@
        + GuardError::GuardEvaluationFailed.message_text() + "\") } true } "@ + name + "::<"@
        + ident_list(params) + ">() }>: const_guards::Protect"@
}

/// The rewritten declaration: its head, its `where` clause with the bound of
/// the guard as one more predicate, and its tail.
pub open spec fn emitted(declaration: DeclarationView, params: Seq<ParamView>, guard: Seq<char>) -> Seq<
    char,
> {
    joined(
        joined(
            joined(
                joined(declaration.head, declaration.where_clause),
                clause_extension(declaration.where_clause),
            ),
            witness_bound(guard_fn_name(declaration.ident), params, guard),
        ),
        declaration.tail,
    )
}

/// What a guard adds to a declaration: the way into the `where` clause, and
/// the bound.
pub open spec fn addition(declaration: DeclarationView, params: Seq<ParamView>, guard: Seq<char>) -> Seq<
    char,
> {
    joined(
        clause_extension(declaration.where_clause),
        witness_bound(guard_fn_name(declaration.ident), params, guard),
    )
}

/// The rewritten declaration is the declaration with the addition of the
/// guard at the end of its `where` clause: the head and the clause stand
/// before it and the tail behind it, as in the declaration itself.
pub proof fn lemma_emission_keeps_declaration(
    declaration: DeclarationView,
    params: Seq<ParamView>,
    guard: Seq<char>,
)
    ensures
        declaration.restored() == joined(
            joined(declaration.head, declaration.where_clause),
            declaration.tail,
        ),
        emitted(declaration, params, guard) == joined(
            joined(
                joined(declaration.head, declaration.where_clause),
                addition(declaration, params, guard),
            ),
            declaration.tail,
        ),
{
    lemma_joined_associative(
        joined(declaration.head, declaration.where_clause),
        clause_extension(declaration.where_clause),
        witness_bound(guard_fn_name(declaration.ident), params, guard),
    );
}

/// The parameters of the function that evaluates a guard: those of the
/// declaration as they stand, unless the guard introduces parameters of its
/// own; the merged set of both where it does, and `None` where their kinds
/// clash.
pub open spec fn guard_params_of(declared: Seq<ParamView>, guard: GuardSpecView) -> Option<
    Seq<ParamView>,
> {
    match guard {
        GuardSpecView::PolyBlock { extra_generics: Some(extra), body } => if kinds_clash(
            declared + extra,
        ) {
            None
        } else {
            Some(merged_set(declared + extra))
        },
        _ => Some(declared),
    }
}

/// What a declaration becomes under a guard.
pub open spec fn transformed(declaration: DeclarationView, guard: GuardSpecView) -> Result<
    Seq<char>,
    GuardError,
> {
    match guard_params_of(declaration.generics, guard) {
        None => Err(GuardError::AmbiguousParameter),
        Some(params) => Ok(emitted(declaration, params, guard.value())),
    }
}

/// The text of a result, or the error in its place.
pub open spec fn text_result_view(result: Result<String, GuardError>) -> Result<Seq<char>, GuardError> {
    match result {
        Ok(text) => Ok(text@),
        Err(error) => Err(error),
    }
}

/// What is to be written between the `where` clause of a declaration and one
/// more bound.
pub fn where_ext(declaration: &Declaration) -> (text: String)
    ensures
        text@ == clause_extension(declaration@.where_clause),
{
    let clause = declaration.where_clause.as_str();
    if clause.unicode_len() == 0 {
        String::from_str("where")
    } else if ends_with_comma(clause) {
        String::new()
    } else {
        String::from_str(",")
    }
}

/// The name of the function that evaluates the guard of the declaration
/// `ident`: the identifier, without the `r#` of a raw identifier, between `_`
/// and `_guard`.
pub fn guard_ident(ident: &str) -> (name: String)
    ensures
        name@ == guard_fn_name(ident@),
{
    let mut name = String::from_str("_");
    name.append(strip_raw(ident).as_str());
    name.append("_guard");
    name
}

/// Writes the bound of a guard.
pub fn bound(name: &str, params: &Vec<GenericParam>, guard: &str) -> (text: String)
    ensures
        text@ == witness_bound(name@, views(params@), guard@),
{
    let mut text = String::from_str("const_guards::Guard<{ const fn ");
    text.append(name);
    text.append("<");
    text.append(param_list(params).as_str());
    text.append(">() -> bool { if !");
    text.append(guard);
    text.append(" { panic!(\"");
    text.append(GuardError::GuardEvaluationFailed.message().as_str());
    text.append("\") } true } ");
    text.append(name);
    text.append("::<");
    text.append(param_idents(params).as_str());
    text.append(">() }>: const_guards::Protect");
    text
}

/// Writes the rewritten declaration.
pub fn emit(declaration: &Declaration, params: &Vec<GenericParam>, guard: &str) -> (text: String)
    ensures
        text@ == emitted(declaration@, views(params@), guard@),
{
    let name = guard_ident(declaration.ident.as_str());
    let mut text = declaration.head.clone();
    push_piece(&mut text, declaration.where_clause.as_str());
    push_piece(&mut text, where_ext(declaration).as_str());
    push_piece(&mut text, bound(name.as_str(), params, guard).as_str());
    push_piece(&mut text, declaration.tail.as_str());
    text
}

/// Rewrites a declaration so that it holds its guard.
///
/// An expression sees the parameters of the declaration and no others, and
/// so does a block that names none. A block that introduces parameters sees
/// the merged set of both lists; where an identifier stands for parameters of
/// two kinds there is no such set, and the guard is rejected with
/// `AmbiguousParameter`.
pub fn transform(declaration: &Declaration, guard: &GuardSpec) -> (result: Result<String, GuardError>)
    ensures
        text_result_view(result) == transformed(declaration@, guard@),
        guard@ is Expression ==> text_result_view(result) == Ok::<Seq<char>, GuardError>(
            emitted(declaration@, declaration@.generics, guard@.value()),
        ),
        result is Err ==> result == Err::<String, GuardError>(GuardError::AmbiguousParameter),
{
    let value = guard.guard_value();
    match guard {
        GuardSpec::PolyBlock { extra_generics: Some(extra), body: _ } => {
            match merge_generic_params(&declaration.generics, extra) {
                Some(params) => Ok(emit(declaration, &params, value.as_str())),
                None => Err(GuardError::AmbiguousParameter),
            }
        },
        _ => Ok(emit(declaration, &declaration.generics, value.as_str())),
    }
}

} // verus!
