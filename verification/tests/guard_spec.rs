use const_guards::error::GuardError;
use const_guards::guard_spec::{classify, render, GuardForm, GuardSpec};
use const_guards::params::ParamKind;
use const_guards::syntax::Lexeme;

fn token(text: &str) -> Lexeme {
    Lexeme { text: text.to_string(), joint: false }
}

fn joint(text: &str) -> Lexeme {
    Lexeme { text: text.to_string(), joint: true }
}

#[test]
fn an_opening_angle_opens_a_block_form() {
    assert_eq!(classify(&vec![token("<"), token("T"), token(">"), token("{ true }")]), GuardForm::PolyBlock);
    assert_eq!(classify(&vec![joint("<"), token("=")]), GuardForm::PolyBlock);
}

#[test]
fn a_group_in_braces_opens_a_block_form() {
    assert_eq!(classify(&vec![token("{ N > 0 }")]), GuardForm::PolyBlock);
    assert_eq!(classify(&vec![token("{ }")]), GuardForm::PolyBlock);
}

#[test]
fn any_other_token_opens_an_expression() {
    assert_eq!(classify(&vec![token("N"), token(">"), token("0")]), GuardForm::Expression);
    assert_eq!(classify(&vec![token("(N > 0)")]), GuardForm::Expression);
    assert_eq!(classify(&vec![token("[0 ; N]")]), GuardForm::Expression);
    assert_eq!(classify(&vec![token(">"), token("<")]), GuardForm::Expression);
    assert_eq!(classify(&vec![token("!"), token("{ true }")]), GuardForm::Expression);
}

#[test]
fn no_token_at_all_is_read_as_an_expression() {
    assert_eq!(classify(&vec![]), GuardForm::Expression);
    assert_eq!(classify(&vec![token("")]), GuardForm::Expression);
}

#[test]
fn tokens_are_written_with_a_space_between_them() {
    assert_eq!(render(&vec![token("<"), token("const"), token("N"), token(":"), token("usize"), token(">")]), "< const N : usize >");
    assert_eq!(render(&vec![token("N")]), "N");
    assert_eq!(render(&vec![]), "");
}

#[test]
fn a_joint_character_holds_on_to_the_next_token() {
    assert_eq!(render(&vec![token("<"), joint("'"), token("a"), token(","), token("T"), token(">")]), "< 'a , T >");
    assert_eq!(render(&vec![token("T"), joint(":"), token(":"), token("N")]), "T :: N");
    assert_eq!(render(&vec![joint("'"), token("a")]), "'a");
}

#[test]
fn a_comparison_parses_as_an_expression() {
    match GuardSpec::parse("N > 0") {
        Ok(GuardSpec::Expression(expr)) => assert_eq!(expr, "N > 0"),
        other => panic!("{:?}", other),
    }
}

#[test]
fn a_bare_block_parses_as_a_block_form() {
    match GuardSpec::parse("{ N > 0 }") {
        Ok(GuardSpec::PolyBlock { extra_generics, body }) => {
            assert!(extra_generics.is_none());
            assert_eq!(body, "{ N > 0 }");
        },
        other => panic!("{:?}", other),
    }
}

#[test]
fn a_block_with_parameters_parses_as_a_block_form() {
    match GuardSpec::parse("<const N: usize> { N > 0 }") {
        Ok(GuardSpec::PolyBlock { extra_generics: Some(params), body }) => {
            assert_eq!(params.len(), 1);
            assert_eq!(params[0].kind, ParamKind::Const);
            assert_eq!(params[0].ident, "N");
            assert_eq!(params[0].text, "const N : usize");
            assert_eq!(body, "{ N > 0 }");
        },
        other => panic!("{:?}", other),
    }
}

#[test]
fn an_expression_is_printed_token_by_token() {
    match GuardSpec::parse("PREFIX=='_'||PREFIX=='#'") {
        Ok(GuardSpec::Expression(expr)) => assert_eq!(expr, "PREFIX == '_' || PREFIX == '#'"),
        other => panic!("{:?}", other),
    }
}

#[test]
fn a_block_is_printed_token_by_token() {
    match GuardSpec::parse("{N>0}") {
        Ok(GuardSpec::PolyBlock { extra_generics: None, body }) => assert_eq!(body, "{ N > 0 }"),
        other => panic!("{:?}", other),
    }
}

#[test]
fn the_parameters_of_a_block_keep_their_order_and_bounds() {
    match GuardSpec::parse("<'a, T: Copy + 'a, const N: usize> { N > 0 }") {
        Ok(GuardSpec::PolyBlock { extra_generics: Some(params), body: _ }) => {
            let seen: Vec<(ParamKind, &str, &str)> =
                params.iter().map(|p| (p.kind, p.ident.as_str(), p.text.as_str())).collect();
            assert_eq!(seen, [
                (ParamKind::Lifetime, "'a", "'a"),
                (ParamKind::Type, "T", "T : Copy + 'a"),
                (ParamKind::Const, "N", "const N : usize"),
            ]);
        },
        other => panic!("{:?}", other),
    }
}

#[test]
fn an_empty_parameter_list_is_a_list() {
    match GuardSpec::parse("<> { true }") {
        Ok(GuardSpec::PolyBlock { extra_generics: Some(params), body }) => {
            assert!(params.is_empty());
            assert_eq!(body, "{ true }");
        },
        other => panic!("{:?}", other),
    }
}

#[test]
fn a_default_in_braces_belongs_to_the_parameter_list() {
    match GuardSpec::parse("<const N: usize = { 1 + 2 }> { N > 0 }") {
        Ok(GuardSpec::PolyBlock { extra_generics: Some(params), body }) => {
            assert_eq!(params.len(), 1);
            assert_eq!(params[0].text, "const N : usize = { 1 + 2 }");
            assert_eq!(body, "{ N > 0 }");
        },
        other => panic!("{:?}", other),
    }
}

#[test]
fn a_brace_in_a_string_does_not_end_the_block() {
    match GuardSpec::parse("<const N: usize> { if N == 0 { panic!(\"expected }\") } else { true } }") {
        Ok(GuardSpec::PolyBlock { extra_generics: Some(params), body }) => {
            assert_eq!(params.len(), 1);
            assert_eq!(body, "{ if N == 0 { panic ! (\"expected }\") } else { true } }");
        },
        other => panic!("{:?}", other),
    }
}

#[test]
fn a_guard_that_is_neither_form_is_rejected() {
    for src in ["", "N > 0 }", "{ N > 0", "N >", "<const N: usize>", "<const N: usize> N > 0",
        "{ true } { false }", "<T as X>::N > 0", "<const N: usize { true }", "\"open"] {
        match GuardSpec::parse(src) {
            Err(error) => assert_eq!(error, GuardError::InvalidGuardSyntax),
            Ok(spec) => panic!("{:?} gave {:?}", src, spec),
        }
    }
}

#[test]
fn a_guard_with_a_literal_of_any_spelling_is_read() {
    match GuardSpec::parse("c\"x\"") {
        Ok(GuardSpec::Expression(expr)) => assert_eq!(expr, "c\"x\""),
        other => panic!("{:?}", other),
    }
    match GuardSpec::parse("<const N: usize = c\"x\"> { true }") {
        Ok(GuardSpec::PolyBlock { extra_generics: Some(params), body: _ }) => {
            assert_eq!(params[0].text, "const N : usize = c\"x\"");
        },
        other => panic!("{:?}", other),
    }
    assert!(GuardSpec::parse("{ b'x' == 120 && 1.5f32 > 0.0 && \"s\".len() == 1 && br\"q\".len() == 1 }").is_ok());
}

#[test]
fn an_expression_is_put_in_parentheses() {
    assert_eq!(GuardSpec::Expression("N > 0".to_string()).guard_value(), "(N > 0)");
    assert_eq!(GuardSpec::parse("a || b").unwrap().guard_value(), "(a || b)");
}

#[test]
fn a_block_stands_as_it_is() {
    let spec = GuardSpec::PolyBlock { extra_generics: None, body: "{ N > 0 }".to_string() };
    assert_eq!(spec.guard_value(), "{ N > 0 }");
    assert_eq!(GuardSpec::parse("<T> { true }").unwrap().guard_value(), "{ true }");
}
