//! The argument of a guard: an expression, or a block that may introduce
//! parameters of its own.
//!
//! ```text
//! guard-argument := expression
//!                 | '<' generic-param-list '>' '{' stmts '}'
//!                 | '{' stmts '}'
//! ```
//!
//! The first token decides: `<` and `{` open a block form, anything else an
//! expression.

use vstd::prelude::*;
use crate::error::GuardError;
use crate::params::{views, GenericParam, ParamView};
use crate::syntax::{
    block_text, expr_text, generic_params, lex, lexed, lexeme_views, syn_block, syn_expr,
    syn_generics, Lexeme, LexemeView,
};

verus! {

/// The two forms of a guard argument.
#[derive(Clone, Copy, Debug, PartialEq, Eq, Structural)]
pub enum GuardForm {
    Expression,
    PolyBlock,
}

/// A guard, parsed.
#[derive(Debug)]
pub enum GuardSpec {
    /// A boolean expression over the parameters of the declaration.
    Expression(String),
    /// A block that ends in a boolean, with the parameters it introduces, if
    /// it names any.
    PolyBlock { extra_generics: Option<Vec<GenericParam>>, body: String },
}

/// The mathematical value of a [`GuardSpec`].
pub ghost enum GuardSpecView {
    Expression(Seq<char>),
    PolyBlock { extra_generics: Option<Seq<ParamView>>, body: Seq<char> },
}

impl View for GuardSpec {
    type V = GuardSpecView;

    open spec fn view(&self) -> GuardSpecView {
        match self {
            GuardSpec::Expression(expr) => GuardSpecView::Expression(expr@),
            GuardSpec::PolyBlock { extra_generics, body } => GuardSpecView::PolyBlock {
                extra_generics: match extra_generics {
                    Some(params) => Some(views(params@)),
                    None => None,
                },
                body: body@,
            },
        }
    }
}

impl GuardSpecView {
    /// The guard as the condition that is tested: an expression in parentheses,
    /// a block as it is.
    pub open spec fn value(self) -> Seq<char> {
        match self {
            GuardSpecView::Expression(expr) => "("@ + expr + ")"@,
            GuardSpecView::PolyBlock { extra_generics, body } => body,
        }
    }
}

/// A token that opens a block form: `<`, or a group in braces.
pub open spec fn opens_poly_block(token: Seq<char>) -> bool {
    token.len() > 0 && (token[0] == '<' || token[0] == '{')
}

/// The form of a guard argument, by its first token.
pub open spec fn form_of(tokens: Seq<LexemeView>) -> GuardForm {
    if tokens.len() > 0 && opens_poly_block(tokens[0].text) {
        GuardForm::PolyBlock
    } else {
        GuardForm::Expression
    }
}

/// Token trees written out one after another: a space before each but the
/// first, and none after a joint punctuation character.
pub open spec fn rendered(tokens: Seq<LexemeView>) -> Seq<char>
    decreases tokens.len(),
{
    if tokens.len() == 0 {
        Seq::empty()
    } else if tokens.len() == 1 {
        tokens[0].text
    } else if tokens[tokens.len() - 2].joint {
        rendered(tokens.drop_last()) + tokens.last().text
    } else {
        rendered(tokens.drop_last()) + seq![' '] + tokens.last().text
    }
}

/// The block form that a list of tokens spells: the last token tree is the
/// block; what stands before it, if anything does, is the parameter list.
pub open spec fn poly_block_of(tokens: Seq<LexemeView>) -> Result<GuardSpecView, GuardError> {
    match syn_block(tokens.last().text) {
        None => Err(GuardError::InvalidGuardSyntax),
        Some(body) => if tokens.len() == 1 {
            Ok(GuardSpecView::PolyBlock { extra_generics: None, body })
        } else {
            match syn_generics(rendered(tokens.drop_last())) {
                None => Err(GuardError::InvalidGuardSyntax),
                Some(params) => Ok(GuardSpecView::PolyBlock { extra_generics: Some(params), body }),
            }
        },
    }
}

/// The guard that a text spells.
pub open spec fn guard_spec_of(src: Seq<char>) -> Result<GuardSpecView, GuardError> {
    match lexed(src) {
        None => Err(GuardError::InvalidGuardSyntax),
        Some(tokens) => match form_of(tokens) {
            GuardForm::Expression => match syn_expr(src) {
                None => Err(GuardError::InvalidGuardSyntax),
                Some(expr) => Ok(GuardSpecView::Expression(expr)),
            },
            GuardForm::PolyBlock => poly_block_of(tokens),
        },
    }
}

/// The value of a parsed guard, or the error in its place.
pub open spec fn guard_result_view(result: Result<GuardSpec, GuardError>) -> Result<
    GuardSpecView,
    GuardError,
> {
    match result {
        Ok(spec) => Ok(spec@),
        Err(error) => Err(error),
    }
}

/// Tells the two forms of a guard argument apart by its first token.
pub fn classify(tokens: &Vec<Lexeme>) -> (form: GuardForm)
    ensures
        form == form_of(lexeme_views(tokens@)),
        form == GuardForm::PolyBlock <==> tokens@.len() > 0 && opens_poly_block(tokens@[0]@.text),
{
    if tokens.len() == 0 {
        return GuardForm::Expression;
    }
    let first = tokens[0].text.as_str();
    if first.unicode_len() == 0 {
        return GuardForm::Expression;
    }
    let c = first.get_char(0);
    if c == '<' || c == '{' {
        GuardForm::PolyBlock
    } else {
        GuardForm::Expression
    }
}

/// Writes token trees out one after another, as a token stream prints them.
pub fn render(tokens: &Vec<Lexeme>) -> (text: String)
    ensures
        text@ == rendered(lexeme_views(tokens@)),
{
    let mut text = String::new();
    let mut i: usize = 0;
    while i < tokens.len()
        invariant
            i <= tokens@.len(),
            text@ == rendered(lexeme_views(tokens@).subrange(0, i as int)),
        decreases tokens.len() - i,
    {
        proof {
            let front = lexeme_views(tokens@).subrange(0, i + 1);
            assert(front.drop_last() =~= lexeme_views(tokens@).subrange(0, i as int));
            assert(front.last() == tokens@[i as int]@);
            if i > 0 {
                assert(front[front.len() - 2] == tokens@[i - 1]@);
            }
        }
        if i > 0 && !tokens[i - 1].joint {
            text.append(" ");
            proof {
                reveal_strlit(" ");
                assert(" "@ =~= seq![' ']);
            }
        }
        text.append(tokens[i].text.as_str());
        i += 1;
    }
    proof {
        assert(lexeme_views(tokens@).subrange(0, tokens@.len() as int) =~= lexeme_views(tokens@));
    }
    text
}

impl GuardSpec {
    /// Parses the argument of a guard.
    ///
    /// A text that starts with `<` or `{` is read as a block form: its last
    /// token tree as the block, and what stands before that as a list of
    /// generic parameters. Any other text is read as one expression. A text
    /// that is neither is rejected with `InvalidGuardSyntax`.
    pub fn parse(src: &str) -> (result: Result<GuardSpec, GuardError>)
        ensures
            guard_result_view(result) == guard_spec_of(src@),
    {
        let mut tokens = match lex(src) {
            Some(tokens) => tokens,
            None => {
                return Err(GuardError::InvalidGuardSyntax);
            },
        };
        match classify(&tokens) {
            GuardForm::Expression => match expr_text(src) {
                Some(expr) => Ok(GuardSpec::Expression(expr)),
                None => Err(GuardError::InvalidGuardSyntax),
            },
            GuardForm::PolyBlock => {
                let ghost all = lexeme_views(tokens@);
                let block = match tokens.pop() {
                    Some(block) => block,
                    None => {
                        return Err(GuardError::InvalidGuardSyntax);
                    },
                };
                proof {
                    assert(all.last() == block@);
                    assert(all.drop_last() =~= lexeme_views(tokens@));
                }
                let body = match block_text(block.text.as_str()) {
                    Some(body) => body,
                    None => {
                        return Err(GuardError::InvalidGuardSyntax);
                    },
                };
                if tokens.len() == 0 {
                    return Ok(GuardSpec::PolyBlock { extra_generics: None, body });
                }
                let list = render(&tokens);
                match generic_params(list.as_str()) {
                    Some(params) => Ok(GuardSpec::PolyBlock { extra_generics: Some(params), body }),
                    None => Err(GuardError::InvalidGuardSyntax),
                }
            },
        }
    }

    /// The guard as the condition that is tested: an expression in parentheses,
    /// a block as it is.
    pub fn guard_value(&self) -> (text: String)
        ensures
            text@ == self@.value(),
    {
        match self {
            GuardSpec::Expression(expr) => {
                let mut text = String::from_str("(");
                text.append(expr.as_str());
                text.append(")");
                text
            },
            GuardSpec::PolyBlock { extra_generics: _, body } => body.clone(),
        }
    }
}

} // verus!
