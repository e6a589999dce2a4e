//! The declaration of a type as the schema source hands it over: attributes,
//! directives, fields and variants, each with the place it was written at.

use vstd::prelude::*;

verus! {

/// A place in the declaration's source text.
#[derive(Debug, Clone, Copy, PartialEq, Eq, Structural)]
pub struct Span {
    pub line: usize,
    pub column: usize,
}

impl Span {
    /// The place of a name that the codec itself supplies.
    pub open spec fn spec_call_site() -> Span {
        Span { line: 0, column: 0 }
    }

    /// The place of a name that the codec itself supplies.
    #[verifier::when_used_as_spec(spec_call_site)]
    pub fn call_site() -> (r: Span)
        ensures
            r == Span::spec_call_site(),
    {
        Span { line: 0, column: 0 }
    }
}

/// An identifier with its place.
#[derive(Debug, PartialEq, Eq)]
pub struct Ident {
    pub span: Span,
    pub name: String,
}

/// A path such as `::prost::Message`.
#[derive(Debug, PartialEq, Eq)]
pub struct Path {
    pub span: Span,
    /// Whether the path starts with `::`.
    pub leading_colon: bool,
    pub segments: Vec<String>,
    /// Whether a segment carries generic arguments.
    pub arguments: bool,
}

impl Path {
    /// Whether the path is a single bare identifier.
    pub open spec fn is_single(&self) -> bool {
        !self.leading_colon && !self.arguments && self.segments@.len() == 1
    }

    /// Whether the path is the single identifier `name`.
    pub open spec fn spec_is_ident(&self, name: Seq<char>) -> bool {
        self.is_single() && self.segments@[0]@ == name
    }

    /// The identifier that the path consists of, if it is a single one.
    pub fn get_ident(&self) -> (r: Option<&String>)
        ensures
            r is Some <==> self.is_single(),
            r is Some ==> *r->0 == self.segments@[0],
    {
        if !self.leading_colon && !self.arguments && self.segments.len() == 1 {
            Some(&self.segments[0])
        } else {
            None
        }
    }

    /// Whether the path is the single identifier `name`.
    pub fn is_ident(&self, name: &str) -> (r: bool)
        ensures
            r == self.spec_is_ident(name@),
    {
        match self.get_ident() {
            Some(ident) => crate::text::text_is(ident, name),
            None => false,
        }
    }

    /// Whether the path is `::first::second`, without generic arguments.
    pub open spec fn spec_is_global(&self, first: Seq<char>, second: Seq<char>) -> bool {
        &&& self.leading_colon
        &&& !self.arguments
        &&& self.segments@.len() == 2
        &&& self.segments@[0]@ == first
        &&& self.segments@[1]@ == second
    }

    /// Whether the path is `::first::second`, without generic arguments.
    pub fn is_global(&self, first: &str, second: &str) -> (r: bool)
        ensures
            r == self.spec_is_global(first@, second@),
    {
        self.leading_colon && !self.arguments && self.segments.len() == 2 && crate::text::text_is(
            &self.segments[0],
            first,
        ) && crate::text::text_is(&self.segments[1], second)
    }
}

/// The value of a `name = value` directive.
#[derive(Debug, PartialEq, Eq)]
pub struct Expr {
    pub span: Span,
    /// The text of the value where it is a string literal.
    pub literal: Option<String>,
}

/// A directive of the form `name = value`.
#[derive(Debug, PartialEq, Eq)]
pub struct MetaNameValue {
    pub path: Path,
    pub value: Expr,
}

/// One directive of an attribute's list.
#[derive(Debug, PartialEq, Eq)]
pub enum Meta {
    /// A bare path, such as `optional`.
    Path(Path),
    /// A nested list, such as `name(..)`; only its path is kept.
    List(Path),
    /// `name = value`.
    NameValue(MetaNameValue),
}

impl Meta {
    /// The path that the directive starts with.
    pub open spec fn spec_path(&self) -> Path {
        match self {
            Meta::Path(p) => *p,
            Meta::List(p) => *p,
            Meta::NameValue(nv) => nv.path,
        }
    }

    /// The place of the directive.
    pub open spec fn spec_span(&self) -> Span {
        self.spec_path().span
    }

    /// The place of the directive.
    #[verifier::when_used_as_spec(spec_span)]
    pub fn span(&self) -> (r: Span)
        ensures
            r == self.spec_span(),
    {
        match self {
            Meta::Path(p) => p.span,
            Meta::List(p) => p.span,
            Meta::NameValue(nv) => nv.path.span,
        }
    }
}

/// What stands behind an attribute's path.
#[derive(Debug, PartialEq, Eq)]
pub enum AttrBody {
    /// Nothing: `#[name]`.
    Path,
    /// A parenthesised list: `#[name(..)]`. `None` where what is inside is not
    /// a list of directives separated by commas.
    List(Option<Vec<Meta>>),
    /// A value: `#[name = value]`.
    NameValue,
}

/// An attribute on a type, a field or a variant.
#[derive(Debug, PartialEq, Eq)]
pub struct Attribute {
    pub path: Path,
    pub body: AttrBody,
}

/// A field of a struct.
#[derive(Debug, PartialEq, Eq)]
pub struct Field {
    pub span: Span,
    pub ident: Option<Ident>,
    /// The name of the type that the field holds, without the wrappers that
    /// its cardinality adds. Only a message field reads it.
    pub ty: String,
    pub attrs: Vec<Attribute>,
}

/// A variant of an enum.
#[derive(Debug, PartialEq, Eq)]
pub struct Variant {
    pub ident: Ident,
    /// The name of the type of the variant's payload. Only a message payload
    /// reads it.
    pub ty: String,
    pub attrs: Vec<Attribute>,
}

/// The fields of a struct.
#[derive(Debug, PartialEq, Eq)]
pub enum Fields {
    Named(Vec<Field>),
    Unnamed(Span),
    Unit(Span),
}

impl Fields {
    /// The place of the fields.
    pub open spec fn spec_span(&self) -> Span {
        match self {
            Fields::Named(fields) => if fields@.len() > 0 {
                fields@[0].span
            } else {
                Span::spec_call_site()
            },
            Fields::Unnamed(span) => *span,
            Fields::Unit(span) => *span,
        }
    }

    /// The place of the fields.
    #[verifier::when_used_as_spec(spec_span)]
    pub fn span(&self) -> (r: Span)
        ensures
            r == self.spec_span(),
    {
        match self {
            Fields::Named(fields) => if fields.len() > 0 {
                fields[0].span
            } else {
                Span::call_site()
            },
            Fields::Unnamed(span) => *span,
            Fields::Unit(span) => *span,
        }
    }
}

#[derive(Debug, PartialEq, Eq)]
pub struct DataStruct {
    pub struct_token: Span,
    pub fields: Fields,
}

#[derive(Debug, PartialEq, Eq)]
pub struct DataEnum {
    pub enum_token: Span,
    pub variants: Vec<Variant>,
}

#[derive(Debug, PartialEq, Eq)]
pub struct DataUnion {
    pub union_token: Span,
}

/// The body of a declared type.
#[derive(Debug, PartialEq, Eq)]
pub enum Data {
    Struct(DataStruct),
    Enum(DataEnum),
    Union(DataUnion),
}

/// A declared type: what a derive sees of it.
#[derive(Debug, PartialEq, Eq)]
pub struct DeriveInput {
    pub attrs: Vec<Attribute>,
    pub ident: Ident,
    pub data: Data,
}

} // verus!
