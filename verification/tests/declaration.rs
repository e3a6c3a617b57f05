use const_guards::declaration::Declaration;
use const_guards::error::GuardError;
use const_guards::params::{GenericParam, ParamKind};
use const_guards::declaration::write_attrs;
use const_guards::syntax::{Attr, EnumParts, FnParts, StructParts, TypeParts};
use quote::ToTokens;

fn text(s: &str) -> String {
    s.to_string()
}

fn outer(text: &str) -> Attr {
    Attr { text: text.to_string(), inner: false }
}

fn inner(text: &str) -> Attr {
    Attr { text: text.to_string(), inner: true }
}

fn tokens(src: &str) -> Vec<String> {
    fn flatten(stream: proc_macro2::TokenStream, out: &mut Vec<String>) {
        for tree in stream {
            match tree {
                proc_macro2::TokenTree::Group(group) => {
                    out.push(format!("{:?}", group.delimiter()));
                    flatten(group.stream(), out);
                    out.push("End".to_string());
                },
                other => out.push(other.to_string()),
            }
        }
    }
    let mut out = Vec::new();
    flatten(src.parse::<proc_macro2::TokenStream>().unwrap(), &mut out);
    out
}

fn kinds(declaration: &Declaration) -> Vec<(ParamKind, &str, &str)> {
    declaration.generics.iter().map(|p| (p.kind, p.ident.as_str(), p.text.as_str())).collect()
}

#[test]
fn an_enum_is_split_before_its_braces() {
    let parts = EnumParts {
        vis: text("pub"),
        ident: text("A"),
        generics: text("< T >"),
        where_clause: text("where T : Eq"),
        variants: text("B (T) , C"),
    };
    let attrs = vec![outer("# [derive (Debug)]")];
    let declaration = Declaration::from_enum(&parts, &attrs, vec![GenericParam::new(ParamKind::Type, "T", "T")]);
    assert_eq!(declaration.ident, "A");
    assert_eq!(declaration.head, "# [derive (Debug)] pub enum A < T >");
    assert_eq!(declaration.where_clause, "where T : Eq");
    assert_eq!(declaration.tail, "{ B (T) , C }");
    assert_eq!(declaration.generics.len(), 1);
    assert_eq!(declaration.restore(), "# [derive (Debug)] pub enum A < T > where T : Eq { B (T) , C }");
}

#[test]
fn an_enum_without_variants_keeps_its_braces() {
    let parts = EnumParts {
        vis: text(""), ident: text("Never"), generics: text(""),
        where_clause: text(""), variants: text(""),
    };
    let declaration = Declaration::from_enum(&parts, &vec![], vec![]);
    assert_eq!(declaration.head, "enum Never");
    assert_eq!(declaration.tail, "{ }");
    assert_eq!(declaration.restore(), "enum Never { }");
}

#[test]
fn a_struct_with_named_fields_is_split_before_them() {
    let parts = StructParts {
        vis: text("pub"), ident: text("B"), generics: text("< T >"),
        where_clause: text("where T : Eq ,"), fields: text("{ b : T }"), semi: text(""),
    };
    let declaration = Declaration::from_struct(&parts, &vec![], vec![]);
    assert_eq!(declaration.head, "pub struct B < T >");
    assert_eq!(declaration.where_clause, "where T : Eq ,");
    assert_eq!(declaration.tail, "{ b : T }");
    assert_eq!(declaration.restore(), "pub struct B < T > where T : Eq , { b : T }");
}

#[test]
fn a_tuple_struct_is_split_behind_its_fields() {
    let parts = StructParts {
        vis: text("pub"), ident: text("A"), generics: text("< T >"),
        where_clause: text("where T : Eq"), fields: text("(T)"), semi: text(";"),
    };
    let declaration = Declaration::from_struct(&parts, &vec![], vec![]);
    assert_eq!(declaration.head, "pub struct A < T > (T)");
    assert_eq!(declaration.tail, ";");
    assert_eq!(declaration.restore(), "pub struct A < T > (T) where T : Eq ;");
}

#[test]
fn a_unit_struct_is_split_before_its_semicolon() {
    let parts = StructParts {
        vis: text(""), ident: text("U"), generics: text("< const N : usize >"),
        where_clause: text(""), fields: text(""), semi: text(";"),
    };
    let declaration = Declaration::from_struct(&parts, &vec![], vec![]);
    assert_eq!(declaration.head, "struct U < const N : usize >");
    assert_eq!(declaration.where_clause, "");
    assert_eq!(declaration.tail, ";");
}

#[test]
fn a_function_is_split_between_signature_and_body() {
    let parts = FnParts {
        vis: text("pub (crate)"), signature: text("fn f < T > () -> T"),
        ident: text("f"), where_clause: text("where T : Default"),
        body: Some(text("T :: default ()")), semi: text(""),
    };
    let declaration = Declaration::from_fn(&parts, &vec![outer("# [inline]")], vec![]);
    assert_eq!(declaration.ident, "f");
    assert_eq!(declaration.head, "# [inline] pub (crate) fn f < T > () -> T");
    assert_eq!(declaration.where_clause, "where T : Default");
    assert_eq!(declaration.tail, "{ T :: default () }");
}

#[test]
fn a_method_without_a_body_ends_in_its_semicolon() {
    let parts = FnParts {
        vis: text(""), signature: text("fn head (& self) -> & T"),
        ident: text("head"), where_clause: text(""),
        body: None, semi: text(";"),
    };
    let declaration = Declaration::from_fn(&parts, &vec![], vec![]);
    assert_eq!(declaration.head, "fn head (& self) -> & T");
    assert_eq!(declaration.tail, ";");
    assert_eq!(declaration.restore(), "fn head (& self) -> & T ;");
}

#[test]
fn an_associated_type_is_split_behind_its_parameters() {
    let parts = TypeParts {
        ident: text("B"), generics: text("< T >"), where_clause: text("where T : Copy"),
        bounds: text("Clone + Send"), default: Some(text("[T ; 2]")),
    };
    let declaration = Declaration::from_associated_type(&parts, &vec![], vec![]);
    assert_eq!(declaration.ident, "B");
    assert_eq!(declaration.head, "type B < T >");
    assert_eq!(declaration.where_clause, "where T : Copy");
    assert_eq!(declaration.tail, ": Clone + Send = [T ; 2] ;");
}

#[test]
fn the_bounds_of_an_associated_type_are_its_tail() {
    let parts = TypeParts {
        ident: text("B"), generics: text("< T , const N : usize >"), where_clause: text(""),
        bounds: text("Copy"), default: None,
    };
    let declaration = Declaration::from_associated_type(&parts, &vec![], vec![]);
    assert_eq!(declaration.head, "type B < T , const N : usize >");
    assert_eq!(declaration.tail, ": Copy ;");
}

#[test]
fn inner_attributes_stay_in_the_body() {
    let parts = FnParts {
        vis: text(""), signature: text("fn f ()"), ident: text("f"), where_clause: text(""),
        body: Some(text("g () ;")), semi: text(""),
    };
    let attrs = vec![outer("# [inline]"), inner("# ! [allow (unused)]"), outer("# [cold]")];
    let declaration = Declaration::from_fn(&parts, &attrs, vec![]);
    assert_eq!(declaration.head, "# [inline] # [cold] fn f ()");
    assert_eq!(declaration.tail, "{ # ! [allow (unused)] g () ; }");
}

#[test]
fn attributes_are_written_by_their_style() {
    let attrs = vec![outer("# [a]"), inner("# ! [b]"), outer("# [c]"), inner("# ! [d]")];
    assert_eq!(write_attrs(&attrs, true, true), "# [a] # ! [b] # [c] # ! [d]");
    assert_eq!(write_attrs(&attrs, true, false), "# [a] # [c]");
    assert_eq!(write_attrs(&attrs, false, true), "# ! [b] # ! [d]");
    assert_eq!(write_attrs(&attrs, false, false), "");
    assert_eq!(write_attrs(&vec![], true, true), "");
}

#[test]
fn an_associated_type_may_lack_bounds_and_default() {
    let parts = TypeParts {
        ident: text("B"), generics: text(""), where_clause: text(""),
        bounds: text(""), default: None,
    };
    let declaration = Declaration::from_associated_type(&parts, &vec![outer("# [doc = \"x\"]")], vec![]);
    assert_eq!(declaration.head, "# [doc = \"x\"] type B");
    assert_eq!(declaration.restore(), "# [doc = \"x\"] type B ;");
}

#[test]
fn a_function_is_read_from_its_text() {
    let declaration = Declaration::parse(
        "#[inline] pub fn f<'a, T, const N: usize>(x: &'a T) -> [T; N] where T: Default + Copy, { [T::default(); N] }",
    ).unwrap();
    assert_eq!(declaration.ident, "f");
    assert_eq!(declaration.head, "# [inline] pub fn f < 'a , T , const N : usize > (x : & 'a T) -> [T ; N]");
    assert_eq!(declaration.where_clause, "where T : Default + Copy ,");
    assert_eq!(declaration.tail, "{ [T :: default () ; N] }");
    assert_eq!(kinds(&declaration), [
        (ParamKind::Lifetime, "'a", "'a"),
        (ParamKind::Type, "T", "T"),
        (ParamKind::Const, "N", "const N : usize"),
    ]);
}

#[test]
fn an_enum_is_read_from_its_text() {
    let declaration = Declaration::parse("pub enum A<T, const N: usize> where T: Eq { B([T; N]) }").unwrap();
    assert_eq!(declaration.ident, "A");
    assert_eq!(declaration.head, "pub enum A < T , const N : usize >");
    assert_eq!(declaration.where_clause, "where T : Eq");
    assert_eq!(declaration.tail, "{ B ([T ; N]) }");
    assert_eq!(kinds(&declaration), [(ParamKind::Type, "T", "T"), (ParamKind::Const, "N", "const N : usize")]);
}

#[test]
fn a_struct_is_read_from_its_text() {
    let tuple = Declaration::parse("pub struct A<T, const N: usize>([T; N]) where T: Eq;").unwrap();
    assert_eq!(tuple.head, "pub struct A < T , const N : usize > ([T ; N])");
    assert_eq!(tuple.where_clause, "where T : Eq");
    assert_eq!(tuple.tail, ";");
    let named = Declaration::parse("pub struct B<T, const N: usize> where T: Eq, { b: [T; N] }").unwrap();
    assert_eq!(named.ident, "B");
    assert_eq!(named.head, "pub struct B < T , const N : usize >");
    assert_eq!(named.where_clause, "where T : Eq ,");
    assert_eq!(named.tail, "{ b : [T ; N] }");
    assert_eq!(named.generics.len(), 2);
}

#[test]
fn a_trait_method_is_read_from_its_text() {
    let declaration = Declaration::parse("fn head<U>(&self) -> &'a T where U: Sized;").unwrap();
    assert_eq!(declaration.ident, "head");
    assert_eq!(declaration.head, "fn head < U > (& self) -> & 'a T");
    assert_eq!(declaration.where_clause, "where U : Sized");
    assert_eq!(declaration.tail, ";");
    assert_eq!(kinds(&declaration), [(ParamKind::Type, "U", "U")]);
}

#[test]
fn an_associated_type_is_read_from_its_text() {
    let declaration = Declaration::parse("type B<T, const N: usize>: Clone = [T; N];").unwrap();
    assert_eq!(declaration.ident, "B");
    assert_eq!(declaration.head, "type B < T , const N : usize >");
    assert_eq!(declaration.where_clause, "");
    assert_eq!(declaration.tail, ": Clone = [T ; N] ;");
    assert_eq!(declaration.generics.len(), 2);
    let bare = Declaration::parse("type C;").unwrap();
    assert_eq!(bare.head, "type C");
    assert!(bare.generics.is_empty());
}

#[test]
fn an_empty_where_clause_counts_as_none() {
    let declaration = Declaration::parse("fn f() where {}").unwrap();
    assert_eq!(declaration.head, "fn f ()");
    assert_eq!(declaration.where_clause, "");
    assert_eq!(declaration.tail, "{ }");
}

#[test]
fn other_declarations_are_unsupported() {
    for src in [
        "impl<T> A for B<T> {}",
        "type A<T> = Vec<T>;",
        "union U { a: u8 }",
        "trait T<const N: usize> {}",
        "const X: usize = 0;",
        "const X: usize;",
        "mod m {}",
        "use a::b;",
        "static S: u8 = 0;",
        "pub fn f();",
        "not an item",
        "",
        "fn f( {",
    ] {
        match Declaration::parse(src) {
            Err(error) => assert_eq!(error, GuardError::UnsupportedDeclaration),
            Ok(declaration) => panic!("{:?} gave {:?}", src, declaration),
        }
    }
}

#[test]
fn the_spans_spell_the_declaration_again() {
    for src in [
        "fn f<const N: usize>() {}",
        "#[inline] pub(crate) unsafe fn r#match<'a, const N: usize>(x: &'a u8) -> u8 where 'a: 'static { *x }",
        "pub enum A<T, const N: usize> where T: Eq, { B([T; N]), C { x: T } }",
        "pub struct A<T, const N: usize>([T; N]) where T: Eq;",
        "pub struct B<T, const N: usize> where T: Eq { b: [T; N] }",
        "struct Unit;",
        "/// documented\nstruct Label<const PREFIX: char>(&'static str);",
        "fn head(&self) -> &'a T;",
        "fn head<U>(&self, other: U) -> bool where U: Eq { true }",
        "fn f() { #![allow(unused)] g(); }",
        "#[inline] fn m(&self) { #![cold] }",
        "type B<T>: Clone + Send;",
        "type B<T>: Clone = Vec<T>;",
        "type B<T>;",
    ] {
        let declaration = Declaration::parse(src).unwrap();
        assert_eq!(tokens(&declaration.restore()), tokens(src));
    }
}

#[test]
fn the_clause_of_an_associated_type_stands_behind_its_parameters() {
    let declaration = Declaration::parse("type B<T>: Clone + Send where T: Copy;").unwrap();
    assert_eq!(declaration.head, "type B < T >");
    assert_eq!(declaration.where_clause, "where T : Copy");
    assert_eq!(declaration.tail, ": Clone + Send ;");
    assert_eq!(declaration.restore(), "type B < T > where T : Copy : Clone + Send ;");
}

#[test]
fn parameters_are_read_in_the_order_of_declaration() {
    let declaration = Declaration::parse("fn f<T, 'a, const N: usize>() {}").unwrap();
    assert_eq!(kinds(&declaration), [
        (ParamKind::Type, "T", "T"),
        (ParamKind::Lifetime, "'a", "'a"),
        (ParamKind::Const, "N", "const N : usize"),
    ]);
    assert!(Declaration::parse("struct S;").unwrap().generics.is_empty());
}

#[test]
fn a_literal_of_any_spelling_is_read() {
    let declaration = Declaration::parse("fn f() { c\"x\"; }").unwrap();
    assert_eq!(declaration.tail, "{ c\"x\" ; }");
    let declaration = Declaration::parse("struct S<const N: usize = 1u8>([u8; 0x1F]);").unwrap();
    assert_eq!(declaration.generics[0].text, "const N : usize = 1u8");
    assert!(Declaration::parse("enum E { A = 1e3, B = cr#\"y\"# }").is_ok());
}

#[test]
fn a_restored_item_is_the_item_that_was_read() {
    for src in [
        "pub fn f<T, const N: usize>() -> [T; N] where T: Default + Copy { [T::default(); N] }",
        "pub enum A<T, const N: usize> where T: Eq { B([T; N]) }",
        "pub struct B<T, const N: usize> where T: Eq, { b: [T; N] }",
        "pub struct A<T, const N: usize>([T; N]) where T: Eq;",
    ] {
        let before = syn::parse_str::<syn::Item>(src).unwrap();
        let restored = Declaration::parse(src).unwrap().restore();
        let after = syn::parse_str::<syn::Item>(&restored).unwrap();
        assert_eq!(before.to_token_stream().to_string(), after.to_token_stream().to_string());
    }
}
