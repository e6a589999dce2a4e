//! Declaration errors, and the list that collects them while a type's codec
//! is built.

use vstd::prelude::*;
use crate::syntax::Span;

verus! {

/// What is wrong with a declaration.
#[derive(Debug, Clone, Copy, PartialEq, Eq, Structural)]
pub enum ErrorKind {
    DuplicateAttribute,
    UnrecognizedOption,
    MissingProstType,
    NotStructuredList,
    MalformedList,
    ExpectedStringLiteral,
    ExpectedBytesOrVec,
    UnrecognizedType,
    UnrecognizedModifier,
    InvalidDirective,
    InvalidPath,
    InvalidTagValue,
    InvalidTagValues,
    MissingType,
    MissingTag,
    OneofWithModifier,
    FieldWithoutName,
    StructNotMessage,
    EnumNotEnumerationOrOneof,
    UnionDeserialize,
    UnionSerialize,
    TupleStructDeserialize,
    UnitStructDeserialize,
    TupleStructSerialize,
    UnitStructSerialize,
}

impl ErrorKind {
    /// The text that reports the error.
    pub open spec fn text(&self) -> Seq<char> {
        match self {
            ErrorKind::DuplicateAttribute => "duplicate attribute"@,
            ErrorKind::UnrecognizedOption => "unrecognized option"@,
            ErrorKind::MissingProstType =>
                "missing prost type(::prost:Message, ::prost::Enumeration, or ::prost::Oneof)"@,
            ErrorKind::NotStructuredList => "is not a structured list"@,
            ErrorKind::MalformedList => "is not a list of directives"@,
            ErrorKind::ExpectedStringLiteral => "should be a string literal"@,
            ErrorKind::ExpectedBytesOrVec => "should be `bytes` or `vec`"@,
            ErrorKind::UnrecognizedType => "unrecognized type"@,
            ErrorKind::UnrecognizedModifier => "unrecognized modifier"@,
            ErrorKind::InvalidDirective => "invalid directive"@,
            ErrorKind::InvalidPath => "should be a path"@,
            ErrorKind::InvalidTagValue => "invalid tag value"@,
            ErrorKind::InvalidTagValues => "invalid tag values"@,
            ErrorKind::MissingType => "missing type"@,
            ErrorKind::MissingTag => "missing tag"@,
            ErrorKind::OneofWithModifier => "oneof should not have modifier(optional, repeated)"@,
            ErrorKind::FieldWithoutName => "Field should have a name"@,
            ErrorKind::StructNotMessage =>
                "Struct type is only available for `::prost::Message`."@,
            ErrorKind::EnumNotEnumerationOrOneof =>
                "Enum type is only available for `::prost::Enumeration` or `::prost::Oneof`."@,
            ErrorKind::UnionDeserialize => "Union type is not available for deserialization."@,
            ErrorKind::UnionSerialize => "Union type is not available for serialization."@,
            ErrorKind::TupleStructDeserialize =>
                "Unit struct is not available for deserialization."@,
            ErrorKind::UnitStructDeserialize =>
                "Unit struct is not available for deserialization."@,
            ErrorKind::TupleStructSerialize =>
                "Unnamed struct is not available for serialization."@,
            ErrorKind::UnitStructSerialize => "Unit struct is not available for serialization."@,
        }
    }

    /// The text that reports the error.
    pub fn message(&self) -> (r: String)
        ensures
            r@ == self.text(),
    {
        let text = match self {
            ErrorKind::DuplicateAttribute => "duplicate attribute",
            ErrorKind::UnrecognizedOption => "unrecognized option",
            ErrorKind::MissingProstType =>
                "missing prost type(::prost:Message, ::prost::Enumeration, or ::prost::Oneof)",
            ErrorKind::NotStructuredList => "is not a structured list",
            ErrorKind::MalformedList => "is not a list of directives",
            ErrorKind::ExpectedStringLiteral => "should be a string literal",
            ErrorKind::ExpectedBytesOrVec => "should be `bytes` or `vec`",
            ErrorKind::UnrecognizedType => "unrecognized type",
            ErrorKind::UnrecognizedModifier => "unrecognized modifier",
            ErrorKind::InvalidDirective => "invalid directive",
            ErrorKind::InvalidPath => "should be a path",
            ErrorKind::InvalidTagValue => "invalid tag value",
            ErrorKind::InvalidTagValues => "invalid tag values",
            ErrorKind::MissingType => "missing type",
            ErrorKind::MissingTag => "missing tag",
            ErrorKind::OneofWithModifier => "oneof should not have modifier(optional, repeated)",
            ErrorKind::FieldWithoutName => "Field should have a name",
            ErrorKind::StructNotMessage => "Struct type is only available for `::prost::Message`.",
            ErrorKind::EnumNotEnumerationOrOneof =>
                "Enum type is only available for `::prost::Enumeration` or `::prost::Oneof`.",
            ErrorKind::UnionDeserialize => "Union type is not available for deserialization.",
            ErrorKind::UnionSerialize => "Union type is not available for serialization.",
            ErrorKind::TupleStructDeserialize => "Unit struct is not available for deserialization.",
            ErrorKind::UnitStructDeserialize => "Unit struct is not available for deserialization.",
            ErrorKind::TupleStructSerialize => "Unnamed struct is not available for serialization.",
            ErrorKind::UnitStructSerialize => "Unit struct is not available for serialization.",
        };
        text.to_owned()
    }
}

/// A declaration error: what is wrong, and where.
#[derive(Debug, Clone, Copy, PartialEq, Eq, Structural)]
pub struct SyntaxError {
    pub span: Span,
    pub kind: ErrorKind,
}

/// The errors found so far while one type's codec is built.
pub struct Context {
    errors: Vec<SyntaxError>,
}

impl Context {
    /// The errors collected so far, oldest first.
    pub closed spec fn errors(&self) -> Seq<SyntaxError> {
        self.errors@
    }

    /// A context without errors.
    pub fn new() -> (r: Context)
        ensures
            r.errors() == Seq::<SyntaxError>::empty(),
    {
        Context { errors: Vec::new() }
    }

    /// Records an error of kind `msg` at the place `obj`.
    pub fn push_error_spanned_by(&mut self, obj: Span, msg: ErrorKind)
        ensures
            final(self).errors() == old(self).errors().push(SyntaxError { span: obj, kind: msg }),
    {
        self.errors.push(SyntaxError { span: obj, kind: msg });
    }

    /// Records `err`.
    pub fn push_syn_error(&mut self, err: SyntaxError)
        ensures
            final(self).errors() == old(self).errors().push(err),
    {
        self.errors.push(err);
    }

    /// Ends the collection: `Ok` where nothing was recorded, else all that
    /// was, oldest first.
    pub fn check(self) -> (r: Result<(), Vec<SyntaxError>>)
        ensures
            r is Ok <==> self.errors().len() == 0,
            r is Err ==> r->Err_0@ == self.errors(),
    {
        if self.errors.len() == 0 {
            Ok(())
        } else {
            Err(self.errors)
        }
    }
}

} // verus!
