//! A guarded declaration, taken apart around the place of its `where` clause.

use vstd::prelude::*;
use crate::error::GuardError;
use crate::lexical::{joined, lemma_joined_associative, push_piece};
use crate::params::{views, GenericParam, ParamView};
use crate::syntax::{
    attr_views, enum_parts, fn_parts, item_attrs, item_params, item_shape, struct_parts, syn_item,
    syn_trait_item, trait_item_attrs, trait_item_params, trait_method_parts, trait_type_parts,
    Attr, AttrView, EnumParts, EnumPartsView, FnParts, FnPartsView, ItemForm, ItemShape,
    StructParts, StructPartsView, TraitItemForm, TypeParts, TypePartsView,
};

verus! {

/// A declaration in three spans of token text: `head`, all that stands before
/// the place of the `where` clause; `where_clause`, the clause that the
/// declaration came with, empty where it had none; and `tail`, all that stands
/// after it. Side by side in this order they spell every part of the
/// declaration once. The head of an associated type ends with its parameter
/// list, so its clause is spelled before its bounds and its default.
#[derive(Debug)]
pub struct Declaration {
    pub ident: String,
    pub generics: Vec<GenericParam>,
    pub head: String,
    pub where_clause: String,
    pub tail: String,
}

/// The mathematical value of a [`Declaration`].
pub ghost struct DeclarationView {
    pub ident: Seq<char>,
    pub generics: Seq<ParamView>,
    pub head: Seq<char>,
    pub where_clause: Seq<char>,
    pub tail: Seq<char>,
}

impl View for Declaration {
    type V = DeclarationView;

    open spec fn view(&self) -> DeclarationView {
        DeclarationView {
            ident: self.ident@,
            generics: views(self.generics@),
            head: self.head@,
            where_clause: self.where_clause@,
            tail: self.tail@,
        }
    }
}

impl DeclarationView {
    /// The declaration spelled again from its three spans.
    pub open spec fn restored(self) -> Seq<char> {
        joined(joined(self.head, self.where_clause), self.tail)
    }
}

/// The attributes of a list side by side, in its order: the outer ones where
/// `outer` is set, the inner ones where `inner` is set.
pub open spec fn attr_text(attrs: Seq<AttrView>, outer: bool, inner: bool) -> Seq<char>
    decreases attrs.len(),
{
    if attrs.len() == 0 {
        Seq::empty()
    } else if (attrs.last().inner && inner) || (!attrs.last().inner && outer) {
        joined(attr_text(attrs.drop_last(), outer, inner), attrs.last().text)
    } else {
        attr_text(attrs.drop_last(), outer, inner)
    }
}

/// Fields in braces follow the `where` clause; fields in parentheses precede
/// it.
pub open spec fn in_braces(fields: Seq<char>) -> bool {
    fields.len() > 0 && fields[0] == '{'
}

/// An `enum`: the clause stands before the braces of the variants.
pub open spec fn enum_declaration(
    parts: EnumPartsView,
    attrs: Seq<AttrView>,
    generics: Seq<ParamView>,
) -> DeclarationView {
    DeclarationView {
        ident: parts.ident,
        generics,
        head: joined(
            joined(joined(joined(attr_text(attrs, true, true), parts.vis), "enum"@), parts.ident),
            parts.generics,
        ),
        where_clause: parts.where_clause,
        tail: joined(joined("{"@, parts.variants), "}"@),
    }
}

/// A `struct`: the clause stands before fields in braces, and after fields
/// in parentheses.
pub open spec fn struct_declaration(
    parts: StructPartsView,
    attrs: Seq<AttrView>,
    generics: Seq<ParamView>,
) -> DeclarationView {
    let front = joined(
        joined(joined(joined(attr_text(attrs, true, true), parts.vis), "struct"@), parts.ident),
        parts.generics,
    );
    DeclarationView {
        ident: parts.ident,
        generics,
        head: if in_braces(parts.fields) {
            front
        } else {
            joined(front, parts.fields)
        },
        where_clause: parts.where_clause,
        tail: if in_braces(parts.fields) {
            joined(parts.fields, parts.semi)
        } else {
            parts.semi
        },
    }
}

/// What follows the clause of a function: the body in its braces, the inner
/// attributes first in it, or the semicolon in its place.
pub open spec fn fn_tail(parts: FnPartsView, attrs: Seq<AttrView>) -> Seq<char> {
    match parts.body {
        Some(statements) => joined(
            joined(joined(joined("{"@, attr_text(attrs, false, true)), statements), "}"@),
            parts.semi,
        ),
        None => joined(attr_text(attrs, false, true), parts.semi),
    }
}

/// A function, free or declared in a trait: the clause stands between the
/// signature and the body, or the semicolon in its place.
pub open spec fn fn_declaration(
    parts: FnPartsView,
    attrs: Seq<AttrView>,
    generics: Seq<ParamView>,
) -> DeclarationView {
    DeclarationView {
        ident: parts.ident,
        generics,
        head: joined(joined(attr_text(attrs, true, false), parts.vis), parts.signature),
        where_clause: parts.where_clause,
        tail: fn_tail(parts, attrs),
    }
}

/// The bounds of an associated type behind their colon.
pub open spec fn bounds_part(bounds: Seq<char>) -> Seq<char> {
    if bounds.len() == 0 {
        bounds
    } else {
        joined(":"@, bounds)
    }
}

/// The default of an associated type behind its `=`.
pub open spec fn default_part(default: Option<Seq<char>>) -> Seq<char> {
    match default {
        Some(ty) => joined("="@, ty),
        None => Seq::empty(),
    }
}

/// An associated type of a trait: the head ends with the parameter list; the
/// bounds, the default and the semicolon are the tail.
pub open spec fn type_declaration(
    parts: TypePartsView,
    attrs: Seq<AttrView>,
    generics: Seq<ParamView>,
) -> DeclarationView {
    DeclarationView {
        ident: parts.ident,
        generics,
        head: joined(
            joined(joined(attr_text(attrs, true, true), "type"@), parts.ident),
            parts.generics,
        ),
        where_clause: parts.where_clause,
        tail: joined(joined(bounds_part(parts.bounds), default_part(parts.default)), ";"@),
    }
}

/// The parts of an `enum` in the order in which they are written.
pub open spec fn enum_text(parts: EnumPartsView, attrs: Seq<AttrView>) -> Seq<char> {
    joined(
        joined(
            joined(
                joined(
                    joined(
                        joined(
                            joined(joined(attr_text(attrs, true, true), parts.vis), "enum"@),
                            parts.ident,
                        ),
                        parts.generics,
                    ),
                    parts.where_clause,
                ),
                "{"@,
            ),
            parts.variants,
        ),
        "}"@,
    )
}

/// The parts of a `struct` in the order in which they are written.
pub open spec fn struct_text(parts: StructPartsView, attrs: Seq<AttrView>) -> Seq<char> {
    let front = joined(
        joined(joined(joined(attr_text(attrs, true, true), parts.vis), "struct"@), parts.ident),
        parts.generics,
    );
    if in_braces(parts.fields) {
        joined(joined(joined(front, parts.where_clause), parts.fields), parts.semi)
    } else {
        joined(joined(joined(front, parts.fields), parts.where_clause), parts.semi)
    }
}

/// The parts of a function in the order in which they are written: the
/// outer attributes in front, the inner ones first in the body.
pub open spec fn fn_text(parts: FnPartsView, attrs: Seq<AttrView>) -> Seq<char> {
    let front = joined(
        joined(joined(attr_text(attrs, true, false), parts.vis), parts.signature),
        parts.where_clause,
    );
    match parts.body {
        Some(statements) => joined(
            joined(
                joined(joined(joined(front, "{"@), attr_text(attrs, false, true)), statements),
                "}"@,
            ),
            parts.semi,
        ),
        None => joined(joined(front, attr_text(attrs, false, true)), parts.semi),
    }
}

/// The parts of an associated type as its three spans spell them: the clause
/// that the declaration came with stands behind the parameter list, before the
/// bounds and the default.
pub open spec fn type_text(parts: TypePartsView, attrs: Seq<AttrView>) -> Seq<char> {
    joined(
        joined(
            joined(
                joined(
                    joined(
                        joined(joined(attr_text(attrs, true, true), "type"@), parts.ident),
                        parts.generics,
                    ),
                    parts.where_clause,
                ),
                bounds_part(parts.bounds),
            ),
            default_part(parts.default),
        ),
        ";"@,
    )
}

/// Taking an `enum` apart loses nothing: its three spans spell its parts in
/// the order in which they were written.
pub proof fn lemma_enum_restored(parts: EnumPartsView, attrs: Seq<AttrView>, generics: Seq<ParamView>)
    ensures
        enum_declaration(parts, attrs, generics).restored() == enum_text(parts, attrs),
{
    let declaration = enum_declaration(parts, attrs, generics);
    let front = joined(declaration.head, declaration.where_clause);
    lemma_joined_associative(front, joined("{"@, parts.variants), "}"@);
    lemma_joined_associative(front, "{"@, parts.variants);
}

/// Taking a `struct` apart loses nothing: its three spans spell its parts in
/// the order in which they were written.
pub proof fn lemma_struct_restored(
    parts: StructPartsView,
    attrs: Seq<AttrView>,
    generics: Seq<ParamView>,
)
    ensures
        struct_declaration(parts, attrs, generics).restored() == struct_text(parts, attrs),
{
    let declaration = struct_declaration(parts, attrs, generics);
    if in_braces(parts.fields) {
        lemma_joined_associative(
            joined(declaration.head, declaration.where_clause),
            parts.fields,
            parts.semi,
        );
    }
}

/// Taking a function apart loses nothing: its three spans spell its parts in
/// the order in which they were written.
pub proof fn lemma_fn_restored(parts: FnPartsView, attrs: Seq<AttrView>, generics: Seq<ParamView>)
    ensures
        fn_declaration(parts, attrs, generics).restored() == fn_text(parts, attrs),
{
    let declaration = fn_declaration(parts, attrs, generics);
    let front = joined(declaration.head, declaration.where_clause);
    let inner = attr_text(attrs, false, true);
    match parts.body {
        Some(statements) => {
            let opened = joined("{"@, inner);
            let filled = joined(opened, statements);
            let closed = joined(filled, "}"@);
            lemma_joined_associative(front, closed, parts.semi);
            lemma_joined_associative(front, filled, "}"@);
            lemma_joined_associative(front, opened, statements);
            lemma_joined_associative(front, "{"@, inner);
        },
        None => {
            lemma_joined_associative(front, inner, parts.semi);
        },
    }
}

/// The three spans of an associated type spell all its parts, each once: the
/// clause behind the parameter list, then the bounds, the default and the
/// semicolon.
pub proof fn lemma_type_restored(parts: TypePartsView, attrs: Seq<AttrView>, generics: Seq<ParamView>)
    ensures
        type_declaration(parts, attrs, generics).restored() == type_text(parts, attrs),
{
    let declaration = type_declaration(parts, attrs, generics);
    let front = joined(declaration.head, declaration.where_clause);
    let middle = joined(bounds_part(parts.bounds), default_part(parts.default));
    lemma_joined_associative(front, middle, ";"@);
    lemma_joined_associative(front, bounds_part(parts.bounds), default_part(parts.default));
}

/// A text read as an item of a trait: a method or an associated type.
pub open spec fn trait_declaration_of(src: Seq<char>) -> Result<DeclarationView, GuardError> {
    let item = syn_trait_item(src);
    match item.form {
        TraitItemForm::Method(parts) => Ok(fn_declaration(parts, item.attrs, item.generics)),
        TraitItemForm::Type(parts) => Ok(type_declaration(parts, item.attrs, item.generics)),
        TraitItemForm::Other => Err(GuardError::UnsupportedDeclaration),
    }
}

/// The declaration that a text spells. What is no item, or only tokens to the
/// grammar of items, is read once more as an item of a trait.
pub open spec fn declaration_of(src: Seq<char>) -> Result<DeclarationView, GuardError> {
    let item = syn_item(src);
    match item.form {
        ItemForm::Enum(parts) => Ok(enum_declaration(parts, item.attrs, item.generics)),
        ItemForm::Function(parts) => Ok(fn_declaration(parts, item.attrs, item.generics)),
        ItemForm::Struct(parts) => Ok(struct_declaration(parts, item.attrs, item.generics)),
        ItemForm::Verbatim => trait_declaration_of(src),
        ItemForm::Malformed => trait_declaration_of(src),
        ItemForm::Other => Err(GuardError::UnsupportedDeclaration),
    }
}

/// The value of a parsed declaration, or the error in its place.
pub open spec fn declaration_result_view(result: Result<Declaration, GuardError>) -> Result<
    DeclarationView,
    GuardError,
> {
    match result {
        Ok(declaration) => Ok(declaration@),
        Err(error) => Err(error),
    }
}

/// Writes the attributes of a list side by side, in its order: the outer ones
/// where `outer` is set, the inner ones where `inner` is set.
pub fn write_attrs(attrs: &Vec<Attr>, outer: bool, inner: bool) -> (text: String)
    ensures
        text@ == attr_text(attr_views(attrs@), outer, inner),
{
    let mut text = String::new();
    let mut i: usize = 0;
    while i < attrs.len()
        invariant
            i <= attrs.len(),
            text@ == attr_text(attr_views(attrs@).subrange(0, i as int), outer, inner),
        decreases attrs.len() - i,
    {
        proof {
            let front = attr_views(attrs@).subrange(0, i + 1);
            assert(front.drop_last() =~= attr_views(attrs@).subrange(0, i as int));
            assert(front.last() == attrs@[i as int]@);
        }
        if (attrs[i].inner && inner) || (!attrs[i].inner && outer) {
            push_piece(&mut text, attrs[i].text.as_str());
        }
        i += 1;
    }
    proof {
        assert(attr_views(attrs@).subrange(0, attrs.len() as int) =~= attr_views(attrs@));
    }
    text
}

impl Declaration {
    /// Takes an `enum` apart.
    pub fn from_enum(parts: &EnumParts, attrs: &Vec<Attr>, generics: Vec<GenericParam>) -> (declaration:
        Declaration)
        ensures
            declaration@ == enum_declaration(parts@, attr_views(attrs@), views(generics@)),
    {
        let mut head = write_attrs(attrs, true, true);
        push_piece(&mut head, parts.vis.as_str());
        push_piece(&mut head, "enum");
        push_piece(&mut head, parts.ident.as_str());
        push_piece(&mut head, parts.generics.as_str());
        let mut tail = String::from_str("{");
        push_piece(&mut tail, parts.variants.as_str());
        push_piece(&mut tail, "}");
        Declaration {
            ident: parts.ident.clone(),
            generics,
            head,
            where_clause: parts.where_clause.clone(),
            tail,
        }
    }

    /// Takes a `struct` apart.
    pub fn from_struct(parts: &StructParts, attrs: &Vec<Attr>, generics: Vec<GenericParam>) -> (declaration:
        Declaration)
        ensures
            declaration@ == struct_declaration(parts@, attr_views(attrs@), views(generics@)),
    {
        let fields = parts.fields.as_str();
        let braced = fields.unicode_len() > 0 && fields.get_char(0) == '{';
        let mut head = write_attrs(attrs, true, true);
        push_piece(&mut head, parts.vis.as_str());
        push_piece(&mut head, "struct");
        push_piece(&mut head, parts.ident.as_str());
        push_piece(&mut head, parts.generics.as_str());
        let mut tail = String::new();
        if braced {
            push_piece(&mut tail, fields);
        } else {
            push_piece(&mut head, fields);
        }
        push_piece(&mut tail, parts.semi.as_str());
        Declaration {
            ident: parts.ident.clone(),
            generics,
            head,
            where_clause: parts.where_clause.clone(),
            tail,
        }
    }

    /// Takes a function apart, or a method declared in a trait.
    pub fn from_fn(parts: &FnParts, attrs: &Vec<Attr>, generics: Vec<GenericParam>) -> (declaration:
        Declaration)
        ensures
            declaration@ == fn_declaration(parts@, attr_views(attrs@), views(generics@)),
    {
        let mut head = write_attrs(attrs, true, false);
        push_piece(&mut head, parts.vis.as_str());
        push_piece(&mut head, parts.signature.as_str());
        let inner = write_attrs(attrs, false, true);
        let mut tail = String::new();
        match &parts.body {
            Some(statements) => {
                push_piece(&mut tail, "{");
                push_piece(&mut tail, inner.as_str());
                push_piece(&mut tail, statements.as_str());
                push_piece(&mut tail, "}");
            },
            None => {
                push_piece(&mut tail, inner.as_str());
            },
        }
        push_piece(&mut tail, parts.semi.as_str());
        assert(tail@ =~= fn_tail(parts@, attr_views(attrs@)));
        Declaration {
            ident: parts.ident.clone(),
            generics,
            head,
            where_clause: parts.where_clause.clone(),
            tail,
        }
    }

    /// Takes an associated type of a trait apart.
    pub fn from_associated_type(parts: &TypeParts, attrs: &Vec<Attr>, generics: Vec<GenericParam>) -> (declaration:
        Declaration)
        ensures
            declaration@ == type_declaration(parts@, attr_views(attrs@), views(generics@)),
    {
        let mut head = write_attrs(attrs, true, true);
        push_piece(&mut head, "type");
        push_piece(&mut head, parts.ident.as_str());
        push_piece(&mut head, parts.generics.as_str());
        let mut tail = String::new();
        if parts.bounds.as_str().unicode_len() > 0 {
            let mut bounds = String::from_str(":");
            push_piece(&mut bounds, parts.bounds.as_str());
            push_piece(&mut tail, bounds.as_str());
        }
        match &parts.default {
            Some(ty) => {
                let mut default = String::from_str("=");
                push_piece(&mut default, ty.as_str());
                push_piece(&mut tail, default.as_str());
            },
            None => {},
        }
        push_piece(&mut tail, ";");
        assert(tail@ =~= type_declaration(parts@, attr_views(attrs@), views(generics@)).tail);
        Declaration {
            ident: parts.ident.clone(),
            generics,
            head,
            where_clause: parts.where_clause.clone(),
            tail,
        }
    }

    /// Spells the declaration again: its head, its `where` clause and its
    /// tail side by side.
    pub fn restore(&self) -> (text: String)
        ensures
            text@ == self@.restored(),
    {
        let mut text = self.head.clone();
        push_piece(&mut text, self.where_clause.as_str());
        push_piece(&mut text, self.tail.as_str());
        text
    }

    /// Reads a text as an item of a trait and takes it apart.
    fn parse_trait_item(src: &str) -> (result: Result<Declaration, GuardError>)
        ensures
            declaration_result_view(result) == trait_declaration_of(src@),
    {
        match trait_method_parts(src) {
            Some(parts) => Ok(
                Declaration::from_fn(&parts, &trait_item_attrs(src), trait_item_params(src)),
            ),
            None => match trait_type_parts(src) {
                Some(parts) => Ok(
                    Declaration::from_associated_type(
                        &parts,
                        &trait_item_attrs(src),
                        trait_item_params(src),
                    ),
                ),
                None => Err(GuardError::UnsupportedDeclaration),
            },
        }
    }

    /// Reads the text of a declaration and takes it apart.
    ///
    /// A function, an `enum` and a `struct` are supported, and so are a method
    /// and an associated type declared in a trait: a text that is no item by
    /// itself is read once more as an item of a trait. Any other declaration
    /// is rejected with `UnsupportedDeclaration`.
    pub fn parse(src: &str) -> (result: Result<Declaration, GuardError>)
        ensures
            declaration_result_view(result) == declaration_of(src@),
    {
        match item_shape(src) {
            ItemShape::Enum => match enum_parts(src) {
                Some(parts) => Ok(Declaration::from_enum(&parts, &item_attrs(src), item_params(src))),
                None => Err(GuardError::UnsupportedDeclaration),
            },
            ItemShape::Function => match fn_parts(src) {
                Some(parts) => Ok(Declaration::from_fn(&parts, &item_attrs(src), item_params(src))),
                None => Err(GuardError::UnsupportedDeclaration),
            },
            ItemShape::Struct => match struct_parts(src) {
                Some(parts) => Ok(Declaration::from_struct(&parts, &item_attrs(src), item_params(src))),
                None => Err(GuardError::UnsupportedDeclaration),
            },
            ItemShape::Verbatim => Declaration::parse_trait_item(src),
            ItemShape::Malformed => Declaration::parse_trait_item(src),
            ItemShape::Other => Err(GuardError::UnsupportedDeclaration),
        }
    }
}

} // verus!
