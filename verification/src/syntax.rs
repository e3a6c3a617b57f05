//! The host grammar: what the parser of Rust syntax makes of a piece of text.
//!
//! Everything in this module that is not a plain data type is taken on trust:
//! the functions here call `syn` and `proc_macro2`, and their contracts give
//! names to what those crates return. The names say nothing of what a given
//! text parses to, only that the same text parses to the same thing.

use vstd::prelude::*;
use proc_macro2::TokenStream;
use quote::ToTokens;
use std::str::FromStr;
use syn::{Item, TraitItem};
use crate::params::{views, GenericParam, ParamKind, ParamView};

verus! {

/// A token tree at the top level of a token stream, as text. `joint` is set
/// for a punctuation character that forms one operator with the next.
#[derive(Debug)]
pub struct Lexeme {
    pub text: String,
    pub joint: bool,
}

/// The mathematical value of a [`Lexeme`].
pub ghost struct LexemeView {
    pub text: Seq<char>,
    pub joint: bool,
}

impl View for Lexeme {
    type V = LexemeView;

    open spec fn view(&self) -> LexemeView {
        LexemeView { text: self.text@, joint: self.joint }
    }
}

/// One attribute as token text. `inner` is set for an attribute that is
/// written inside the braces of what it belongs to (`#![..]`).
#[derive(Debug)]
pub struct Attr {
    pub text: String,
    pub inner: bool,
}

/// The mathematical value of an [`Attr`].
pub ghost struct AttrView {
    pub text: Seq<char>,
    pub inner: bool,
}

impl View for Attr {
    type V = AttrView;

    open spec fn view(&self) -> AttrView {
        AttrView { text: self.text@, inner: self.inner }
    }
}

/// The values of a list of attributes.
pub open spec fn attr_views(attrs: Seq<Attr>) -> Seq<AttrView> {
    attrs.map_values(|a: Attr| a@)
}

/// The parts of an `enum` item, each as token text. `generics` is the
/// parameter list in its angle brackets; `variants` is what stands between
/// the braces.
#[derive(Debug)]
pub struct EnumParts {
    pub vis: String,
    pub ident: String,
    pub generics: String,
    pub where_clause: String,
    pub variants: String,
}

/// The mathematical value of an [`EnumParts`].
pub ghost struct EnumPartsView {
    pub vis: Seq<char>,
    pub ident: Seq<char>,
    pub generics: Seq<char>,
    pub where_clause: Seq<char>,
    pub variants: Seq<char>,
}

impl View for EnumParts {
    type V = EnumPartsView;

    open spec fn view(&self) -> EnumPartsView {
        EnumPartsView {
            vis: self.vis@,
            ident: self.ident@,
            generics: self.generics@,
            where_clause: self.where_clause@,
            variants: self.variants@,
        }
    }
}

/// The parts of a `struct` item, each as token text. `fields` comes with its
/// braces or parentheses and is empty for a unit struct; `semi` is the closing
/// semicolon of a tuple or unit struct.
#[derive(Debug)]
pub struct StructParts {
    pub vis: String,
    pub ident: String,
    pub generics: String,
    pub where_clause: String,
    pub fields: String,
    pub semi: String,
}

/// The mathematical value of a [`StructParts`].
pub ghost struct StructPartsView {
    pub vis: Seq<char>,
    pub ident: Seq<char>,
    pub generics: Seq<char>,
    pub where_clause: Seq<char>,
    pub fields: Seq<char>,
    pub semi: Seq<char>,
}

impl View for StructParts {
    type V = StructPartsView;

    open spec fn view(&self) -> StructPartsView {
        StructPartsView {
            vis: self.vis@,
            ident: self.ident@,
            generics: self.generics@,
            where_clause: self.where_clause@,
            fields: self.fields@,
            semi: self.semi@,
        }
    }
}

/// The parts of a function, free or declared in a trait, each as token text.
/// `signature` runs from the qualifiers to the return type, without the
/// `where` clause. `body` holds the statements between the braces, and is
/// `None` where there are no braces; `semi` is the semicolon that closes a
/// declaration without a body.
#[derive(Debug)]
pub struct FnParts {
    pub vis: String,
    pub signature: String,
    pub ident: String,
    pub where_clause: String,
    pub body: Option<String>,
    pub semi: String,
}

/// The mathematical value of a [`FnParts`].
pub ghost struct FnPartsView {
    pub vis: Seq<char>,
    pub signature: Seq<char>,
    pub ident: Seq<char>,
    pub where_clause: Seq<char>,
    pub body: Option<Seq<char>>,
    pub semi: Seq<char>,
}

impl View for FnParts {
    type V = FnPartsView;

    open spec fn view(&self) -> FnPartsView {
        FnPartsView {
            vis: self.vis@,
            signature: self.signature@,
            ident: self.ident@,
            where_clause: self.where_clause@,
            body: value_of(self.body),
            semi: self.semi@,
        }
    }
}

/// The parts of an associated type declared in a trait, each as token text.
/// `bounds` is what follows the colon; `default` is the type after `=`.
#[derive(Debug)]
pub struct TypeParts {
    pub ident: String,
    pub generics: String,
    pub where_clause: String,
    pub bounds: String,
    pub default: Option<String>,
}

/// The mathematical value of a [`TypeParts`].
pub ghost struct TypePartsView {
    pub ident: Seq<char>,
    pub generics: Seq<char>,
    pub where_clause: Seq<char>,
    pub bounds: Seq<char>,
    pub default: Option<Seq<char>>,
}

impl View for TypeParts {
    type V = TypePartsView;

    open spec fn view(&self) -> TypePartsView {
        TypePartsView {
            ident: self.ident@,
            generics: self.generics@,
            where_clause: self.where_clause@,
            bounds: self.bounds@,
            default: value_of(self.default),
        }
    }
}

/// What a text is when it is read as an item.
#[derive(Clone, Copy, Debug, PartialEq, Eq, Structural)]
pub enum ItemShape {
    Enum,
    Function,
    Struct,
    /// Tokens that the grammar accepts without making an item of them.
    Verbatim,
    /// No item at all.
    Malformed,
    /// An item of any other kind.
    Other,
}

/// The kind of an item, with the parts of a kind that a guard supports.
pub ghost enum ItemForm {
    Enum(EnumPartsView),
    Function(FnPartsView),
    Struct(StructPartsView),
    Verbatim,
    Malformed,
    Other,
}

impl ItemForm {
    pub open spec fn shape(self) -> ItemShape {
        match self {
            ItemForm::Enum(_) => ItemShape::Enum,
            ItemForm::Function(_) => ItemShape::Function,
            ItemForm::Struct(_) => ItemShape::Struct,
            ItemForm::Verbatim => ItemShape::Verbatim,
            ItemForm::Malformed => ItemShape::Malformed,
            ItemForm::Other => ItemShape::Other,
        }
    }

    pub open spec fn as_enum(self) -> Option<EnumPartsView> {
        match self {
            ItemForm::Enum(parts) => Some(parts),
            _ => None,
        }
    }

    pub open spec fn as_function(self) -> Option<FnPartsView> {
        match self {
            ItemForm::Function(parts) => Some(parts),
            _ => None,
        }
    }

    pub open spec fn as_struct(self) -> Option<StructPartsView> {
        match self {
            ItemForm::Struct(parts) => Some(parts),
            _ => None,
        }
    }
}

/// A text read as an item, as far as a guard looks into it: its kind with its
/// parts, its attributes and its generic parameters, both in the order in
/// which they are written.
pub ghost struct ParsedItem {
    pub form: ItemForm,
    pub attrs: Seq<AttrView>,
    pub generics: Seq<ParamView>,
}

/// The kind of an item of a trait, with the parts of a kind that a guard
/// supports.
pub ghost enum TraitItemForm {
    Method(FnPartsView),
    Type(TypePartsView),
    /// Anything else, and what is no trait item at all.
    Other,
}

impl TraitItemForm {
    pub open spec fn as_method(self) -> Option<FnPartsView> {
        match self {
            TraitItemForm::Method(parts) => Some(parts),
            _ => None,
        }
    }

    pub open spec fn as_type(self) -> Option<TypePartsView> {
        match self {
            TraitItemForm::Type(parts) => Some(parts),
            _ => None,
        }
    }
}

/// A text read as an item of a trait, as far as a guard looks into it.
pub ghost struct ParsedTraitItem {
    pub form: TraitItemForm,
    pub attrs: Seq<AttrView>,
    pub generics: Seq<ParamView>,
}

/// The mathematical value of what may be absent.
pub open spec fn value_of<T: View>(found: Option<T>) -> Option<T::V> {
    match found {
        Some(value) => Some(value@),
        None => None,
    }
}

/// The values of a list of parameters that may be absent.
pub open spec fn params_of(found: Option<Vec<GenericParam>>) -> Option<Seq<ParamView>> {
    match found {
        Some(params) => Some(views(params@)),
        None => None,
    }
}

/// The values of a list of lexemes.
pub open spec fn lexeme_views(lexemes: Seq<Lexeme>) -> Seq<LexemeView> {
    lexemes.map_values(|l: Lexeme| l@)
}

/// The values of a list of lexemes that may be absent.
pub open spec fn lexemes_of(found: Option<Vec<Lexeme>>) -> Option<Seq<LexemeView>> {
    match found {
        Some(lexemes) => Some(lexeme_views(lexemes@)),
        None => None,
    }
}

/// What `syn` makes of `src` when it parses it as an `Item`. Of an item of a
/// kind that a guard does not support, the attributes and parameters are
/// empty.
pub uninterp spec fn syn_item(src: Seq<char>) -> ParsedItem;

/// What `syn` makes of `src` when it parses it as a `TraitItem`. Of an item
/// of a kind that a guard does not support, the attributes and parameters are
/// empty.
pub uninterp spec fn syn_trait_item(src: Seq<char>) -> ParsedTraitItem;

/// The parameters that `syn` finds when it parses `src` as `Generics`, or
/// `None` where `src` is no list of generic parameters.
pub uninterp spec fn syn_generics(src: Seq<char>) -> Option<Seq<ParamView>>;

/// `src` as `syn` prints it after parsing it as an `Expr`, or `None` where it
/// is no expression.
pub uninterp spec fn syn_expr(src: Seq<char>) -> Option<Seq<char>>;

/// `src` as `syn` prints it after parsing it as a `Block`, or `None` where it
/// is no block.
pub uninterp spec fn syn_block(src: Seq<char>) -> Option<Seq<char>>;

/// The token trees that `proc_macro2` finds at the top level of `src`, or
/// `None` where `src` does not lex.
pub uninterp spec fn lexed(src: Seq<char>) -> Option<Seq<LexemeView>>;

/// Calls `syn::parse_str::<syn::Item>` and tells the variants of the result
/// apart. A text that `syn` rejects is `Malformed`.
#[verifier::external_body]
pub(crate) fn item_shape(src: &str) -> (shape: ItemShape)
    ensures
        shape == syn_item(src@).form.shape(),
{
    match syn::parse_str::<Item>(src) {
        Ok(Item::Enum(_)) => ItemShape::Enum,
        Ok(Item::Fn(_)) => ItemShape::Function,
        Ok(Item::Struct(_)) => ItemShape::Struct,
        Ok(Item::Verbatim(_)) => ItemShape::Verbatim,
        Ok(_) => ItemShape::Other,
        Err(_) => ItemShape::Malformed,
    }
}

/// Calls `syn::parse_str::<syn::Item>` and hands out the attributes of an
/// `enum`, a function or a `struct` in their order, each printed with
/// `ToTokens` and marked by its style.
#[verifier::external_body]
pub(crate) fn item_attrs(src: &str) -> (attrs: Vec<Attr>)
    ensures
        attr_views(attrs@) == syn_item(src@).attrs,
{
    let attrs = match syn::parse_str::<Item>(src) {
        Ok(Item::Enum(e)) => e.attrs,
        Ok(Item::Fn(f)) => f.attrs,
        Ok(Item::Struct(s)) => s.attrs,
        _ => Vec::new(),
    };
    attrs.iter().map(|a| Attr {
        inner: matches!(a.style, syn::AttrStyle::Inner(_)),
        text: a.to_token_stream().to_string(),
    }).collect()
}

/// Calls `syn::parse_str::<syn::Item>` and hands out the generic parameters
/// of an `enum`, a function or a `struct` in their order: each with its kind,
/// its identifier (a lifetime with its apostrophe) and its declaration as
/// `ToTokens` prints it.
#[verifier::external_body]
pub(crate) fn item_params(src: &str) -> (params: Vec<GenericParam>)
    ensures
        views(params@) == syn_item(src@).generics,
{
    let generics = match syn::parse_str::<Item>(src) {
        Ok(Item::Enum(e)) => e.generics,
        Ok(Item::Fn(f)) => f.sig.generics,
        Ok(Item::Struct(s)) => s.generics,
        _ => Default::default(),
    };
    generics.params.iter().map(|p| {
        let (kind, ident) = match p {
            syn::GenericParam::Type(t) => (ParamKind::Type, t.ident.to_string()),
            syn::GenericParam::Const(c) => (ParamKind::Const, c.ident.to_string()),
            syn::GenericParam::Lifetime(l) => (ParamKind::Lifetime, l.lifetime.to_string()),
        };
        GenericParam { kind, ident, text: p.to_token_stream().to_string() }
    }).collect()
}

/// Calls `syn::parse_str::<syn::Item>` and, where the result is an
/// `Item::Enum`, prints its fields with `ToTokens`.
#[verifier::external_body]
pub(crate) fn enum_parts(src: &str) -> (parts: Option<EnumParts>)
    ensures
        value_of(parts) == syn_item(src@).form.as_enum(),
{
    match syn::parse_str::<Item>(src) {
        Ok(Item::Enum(e)) => Some(EnumParts {
            vis: e.vis.to_token_stream().to_string(),
            ident: e.ident.to_string(),
            generics: e.generics.to_token_stream().to_string(),
            where_clause: e.generics.where_clause.to_token_stream().to_string(),
            variants: e.variants.to_token_stream().to_string(),
        }),
        _ => None,
    }
}

/// Calls `syn::parse_str::<syn::Item>` and, where the result is an
/// `Item::Struct`, prints its fields with `ToTokens`.
#[verifier::external_body]
pub(crate) fn struct_parts(src: &str) -> (parts: Option<StructParts>)
    ensures
        value_of(parts) == syn_item(src@).form.as_struct(),
{
    match syn::parse_str::<Item>(src) {
        Ok(Item::Struct(s)) => Some(StructParts {
            vis: s.vis.to_token_stream().to_string(),
            ident: s.ident.to_string(),
            generics: s.generics.to_token_stream().to_string(),
            where_clause: s.generics.where_clause.to_token_stream().to_string(),
            fields: s.fields.to_token_stream().to_string(),
            semi: s.semi_token.to_token_stream().to_string(),
        }),
        _ => None,
    }
}

/// Calls `syn::parse_str::<syn::Item>` and, where the result is an
/// `Item::Fn`, prints its fields with `ToTokens`. The `where` clause is taken
/// out of the signature before the signature is printed; the statements of
/// the block are printed without its braces.
#[verifier::external_body]
pub(crate) fn fn_parts(src: &str) -> (parts: Option<FnParts>)
    ensures
        value_of(parts) == syn_item(src@).form.as_function(),
{
    let mut f = match syn::parse_str::<Item>(src) { Ok(Item::Fn(f)) => f, _ => return None };
    let clause = f.sig.generics.where_clause.take();
    Some(FnParts {
        vis: f.vis.to_token_stream().to_string(),
        signature: f.sig.to_token_stream().to_string(),
        ident: f.sig.ident.to_string(),
        where_clause: clause.to_token_stream().to_string(),
        body: Some(f.block.stmts.iter().map(ToTokens::to_token_stream).collect::<TokenStream>().to_string()),
        semi: String::new(),
    })
}

/// Calls `syn::parse_str::<syn::TraitItem>` and hands out the attributes of a
/// method or an associated type in their order, each printed with `ToTokens`
/// and marked by its style.
#[verifier::external_body]
pub(crate) fn trait_item_attrs(src: &str) -> (attrs: Vec<Attr>)
    ensures
        attr_views(attrs@) == syn_trait_item(src@).attrs,
{
    let attrs = match syn::parse_str::<TraitItem>(src) {
        Ok(TraitItem::Fn(m)) => m.attrs,
        Ok(TraitItem::Type(t)) => t.attrs,
        _ => Vec::new(),
    };
    attrs.iter().map(|a| Attr {
        inner: matches!(a.style, syn::AttrStyle::Inner(_)),
        text: a.to_token_stream().to_string(),
    }).collect()
}

/// Calls `syn::parse_str::<syn::TraitItem>` and hands out the generic
/// parameters of a method or an associated type in their order, as
/// `item_params` does for an item.
#[verifier::external_body]
pub(crate) fn trait_item_params(src: &str) -> (params: Vec<GenericParam>)
    ensures
        views(params@) == syn_trait_item(src@).generics,
{
    let generics = match syn::parse_str::<TraitItem>(src) {
        Ok(TraitItem::Fn(m)) => m.sig.generics,
        Ok(TraitItem::Type(t)) => t.generics,
        _ => Default::default(),
    };
    generics.params.iter().map(|p| {
        let (kind, ident) = match p {
            syn::GenericParam::Type(t) => (ParamKind::Type, t.ident.to_string()),
            syn::GenericParam::Const(c) => (ParamKind::Const, c.ident.to_string()),
            syn::GenericParam::Lifetime(l) => (ParamKind::Lifetime, l.lifetime.to_string()),
        };
        GenericParam { kind, ident, text: p.to_token_stream().to_string() }
    }).collect()
}

/// Calls `syn::parse_str::<syn::TraitItem>` and, where the result is a
/// `TraitItem::Fn`, prints its fields with `ToTokens`. The `where` clause is
/// taken out of the signature before the signature is printed; the statements
/// of a default block are printed without its braces.
#[verifier::external_body]
pub(crate) fn trait_method_parts(src: &str) -> (parts: Option<FnParts>)
    ensures
        value_of(parts) == syn_trait_item(src@).form.as_method(),
{
    let mut m = match syn::parse_str::<TraitItem>(src) { Ok(TraitItem::Fn(m)) => m, _ => return None };
    let clause = m.sig.generics.where_clause.take();
    Some(FnParts {
        vis: String::new(),
        signature: m.sig.to_token_stream().to_string(),
        ident: m.sig.ident.to_string(),
        where_clause: clause.to_token_stream().to_string(),
        body: m.default.map(|b| b.stmts.iter().map(ToTokens::to_token_stream).collect::<TokenStream>().to_string()),
        semi: m.semi_token.to_token_stream().to_string(),
    })
}

/// Calls `syn::parse_str::<syn::TraitItem>` and, where the result is a
/// `TraitItem::Type`, prints its fields with `ToTokens`.
#[verifier::external_body]
pub(crate) fn trait_type_parts(src: &str) -> (parts: Option<TypeParts>)
    ensures
        value_of(parts) == syn_trait_item(src@).form.as_type(),
{
    match syn::parse_str::<TraitItem>(src) {
        Ok(TraitItem::Type(t)) => Some(TypeParts {
            ident: t.ident.to_string(),
            generics: t.generics.to_token_stream().to_string(),
            where_clause: t.generics.where_clause.to_token_stream().to_string(),
            bounds: t.bounds.to_token_stream().to_string(),
            default: t.default.map(|d| d.1.to_token_stream().to_string()),
        }),
        _ => None,
    }
}

/// Calls `syn::parse_str::<syn::Generics>` and hands out the parameters in
/// their order: each with its kind, its identifier (a lifetime with its
/// apostrophe) and its declaration as `ToTokens` prints it.
#[verifier::external_body]
pub(crate) fn generic_params(src: &str) -> (params: Option<Vec<GenericParam>>)
    ensures
        params_of(params) == syn_generics(src@),
{
    let generics = syn::parse_str::<syn::Generics>(src).ok()?;
    Some(generics.params.iter().map(|p| {
        let (kind, ident) = match p {
            syn::GenericParam::Type(t) => (ParamKind::Type, t.ident.to_string()),
            syn::GenericParam::Const(c) => (ParamKind::Const, c.ident.to_string()),
            syn::GenericParam::Lifetime(l) => (ParamKind::Lifetime, l.lifetime.to_string()),
        };
        GenericParam { kind, ident, text: p.to_token_stream().to_string() }
    }).collect())
}

/// Calls `syn::parse_str::<syn::Expr>` and prints the expression with
/// `ToTokens`.
#[verifier::external_body]
pub(crate) fn expr_text(src: &str) -> (text: Option<String>)
    ensures
        value_of(text) == syn_expr(src@),
{
    syn::parse_str::<syn::Expr>(src).ok().map(|e| e.to_token_stream().to_string())
}

/// Calls `syn::parse_str::<syn::Block>` and prints the block with `ToTokens`.
#[verifier::external_body]
pub(crate) fn block_text(src: &str) -> (text: Option<String>)
    ensures
        value_of(text) == syn_block(src@),
{
    syn::parse_str::<syn::Block>(src).ok().map(|b| b.to_token_stream().to_string())
}

/// Calls `proc_macro2::TokenStream::from_str` and hands out the token trees of
/// the stream in their order, each printed by its `Display`.
#[verifier::external_body]
pub(crate) fn lex(src: &str) -> (lexemes: Option<Vec<Lexeme>>)
    ensures
        lexemes_of(lexemes) == lexed(src@),
{
    let stream = TokenStream::from_str(src).ok()?;
    Some(stream.into_iter().map(|tree| Lexeme {
        joint: matches!(&tree, proc_macro2::TokenTree::Punct(p) if p.spacing() == proc_macro2::Spacing::Joint),
        text: tree.to_string(),
    }).collect())
}

} // verus!
