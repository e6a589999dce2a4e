//! The schema of a type as its attributes give it: the kind of the type with
//! its policy switches, and for every field its protobuf type, its
//! cardinality and its tag.

use vstd::prelude::*;
use crate::context::{Context, ErrorKind, SyntaxError};
use crate::number::{parse_i32, parse_tags, spec_parse_i32, spec_parse_tags};
use crate::syntax::{Attribute, Meta, Span};
use crate::text::text_is;
use crate::util::{
    deref_metas,
    get_ident_or_err,
    into_syn_error,
    meta_args,
    parse_meta_args_from_attrs,
    set_option_or_err,
    spec_into_syn_error,
};

verus! {

/// The kind of a declared type.
#[derive(Debug, Clone, Copy, PartialEq, Eq, Structural)]
pub enum ProstType {
    Message,
    Enum,
    Oneof,
}

/// What the attributes of a type say of the whole type: its kind, and the
/// policy switches of its decoder. A switch that is not named is off.
#[derive(Debug, Clone, Copy, PartialEq, Eq, Structural)]
pub struct DeriveMeta {
    pub prost_type: ProstType,
    /// A value of the wrong shape is replaced by the zero value of its type.
    pub omit_type_errors: bool,
    /// A required field that the input lacks gets the zero value of its type.
    pub use_default_for_missing_fields: bool,
    /// A key that names no field is skipped.
    pub ignore_unknown_fields: bool,
}

/// The policy switches found in a list of directives.
pub struct Switches {
    pub omit_type_errors: bool,
    pub use_default_for_missing_fields: bool,
    pub ignore_unknown_fields: bool,
}

impl DeriveMeta {
    /// The kind that a directive of the `derive` list names, if it names one.
    pub open spec fn kind_named(meta: Meta) -> Option<ProstType> {
        match meta {
            Meta::Path(p) => if p.spec_is_global("prost"@, "Message"@) {
                Some(ProstType::Message)
            } else if p.spec_is_global("prost"@, "Enumeration"@) {
                Some(ProstType::Enum)
            } else if p.spec_is_global("prost"@, "Oneof"@) {
                Some(ProstType::Oneof)
            } else {
                None
            },
            _ => None,
        }
    }

    /// The kind that the first `n` directives of the `derive` list name: at
    /// most one of them may name a kind.
    pub open spec fn kinds(metas: Seq<Meta>, n: int) -> Result<Option<ProstType>, SyntaxError>
        decreases n,
    {
        if n <= 0 || n > metas.len() {
            Ok(None)
        } else {
            match Self::kinds(metas, n - 1) {
                Err(e) => Err(e),
                Ok(found) => match Self::kind_named(metas[n - 1]) {
                    None => Ok(found),
                    Some(kind) => if found is Some {
                        Err(spec_into_syn_error(metas[n - 1].spec_span(), ErrorKind::DuplicateAttribute))
                    } else {
                        Ok(Some(kind))
                    },
                },
            }
        }
    }

    /// Whether a directive is the bare switch `name`.
    pub open spec fn switch_named(meta: Meta, name: Seq<char>) -> bool {
        meta matches Meta::Path(p) && p.spec_is_ident(name)
    }

    /// The switches that the first `n` directives of the policy list turn
    /// on: each of them must be one of the three switches.
    pub open spec fn switches(metas: Seq<Meta>, n: int) -> Result<Switches, SyntaxError>
        decreases n,
    {
        if n <= 0 || n > metas.len() {
            Ok(
                Switches {
                    omit_type_errors: false,
                    use_default_for_missing_fields: false,
                    ignore_unknown_fields: false,
                },
            )
        } else {
            match Self::switches(metas, n - 1) {
                Err(e) => Err(e),
                Ok(found) => if Self::switch_named(metas[n - 1], "omit_type_errors"@) {
                    Ok(Switches { omit_type_errors: true, ..found })
                } else if Self::switch_named(metas[n - 1], "use_default_for_missing_fields"@) {
                    Ok(Switches { use_default_for_missing_fields: true, ..found })
                } else if Self::switch_named(metas[n - 1], "ignore_unknown_fields"@) {
                    Ok(Switches { ignore_unknown_fields: true, ..found })
                } else {
                    Err(spec_into_syn_error(metas[n - 1].spec_span(), ErrorKind::UnrecognizedOption))
                },
            }
        }
    }

    /// What the attributes of a type say of it: the one kind that its
    /// `derive` lists name, and the switches that its `prost_serde_derive`
    /// lists turn on.
    pub open spec fn spec_from_attributes(attributes: Seq<Attribute>) -> Result<
        DeriveMeta,
        SyntaxError,
    > {
        match meta_args(attributes, "derive"@, true, attributes.len() as int) {
            Err(e) => Err(e),
            Ok(derives) => match Self::kinds(derives, derives.len() as int) {
                Err(e) => Err(e),
                Ok(kind) => match meta_args(
                    attributes,
                    "prost_serde_derive"@,
                    true,
                    attributes.len() as int,
                ) {
                    Err(e) => Err(e),
                    Ok(options) => match Self::switches(options, options.len() as int) {
                        Err(e) => Err(e),
                        Ok(found) => match kind {
                            None => Err(
                                spec_into_syn_error(
                                    Span::spec_call_site(),
                                    ErrorKind::MissingProstType,
                                ),
                            ),
                            Some(prost_type) => Ok(
                                DeriveMeta {
                                    prost_type,
                                    omit_type_errors: found.omit_type_errors,
                                    use_default_for_missing_fields: found.use_default_for_missing_fields,
                                    ignore_unknown_fields: found.ignore_unknown_fields,
                                },
                            ),
                        },
                    },
                },
            }
        }
    }

    /// Once a directive of the `derive` list has an error, that error stays.
    pub proof fn lemma_kinds_error_stays(metas: Seq<Meta>, n: int, m: int)
        requires
            0 <= n <= m <= metas.len(),
            Self::kinds(metas, n) is Err,
        ensures
            Self::kinds(metas, m) == Self::kinds(metas, n),
        decreases m - n,
    {
        if n < m {
            Self::lemma_kinds_error_stays(metas, n, m - 1);
        }
    }

    /// Once a directive of the policy list has an error, that error stays.
    pub proof fn lemma_switches_error_stays(metas: Seq<Meta>, n: int, m: int)
        requires
            0 <= n <= m <= metas.len(),
            Self::switches(metas, n) is Err,
        ensures
            Self::switches(metas, m) == Self::switches(metas, n),
        decreases m - n,
    {
        if n < m {
            Self::lemma_switches_error_stays(metas, n, m - 1);
        }
    }

    /// Reads the kind of a type and its policy switches from its attributes.
    pub fn from_attributes(attributes: &Vec<Attribute>) -> (r: Result<DeriveMeta, SyntaxError>)
        ensures
            r == Self::spec_from_attributes(attributes@),
    {
        let mut prost_type: Option<ProstType> = None;
        let derives = match parse_meta_args_from_attrs(attributes, "derive", true) {
            Ok(metas) => metas,
            Err(e) => {
                return Err(e);
            },
        };
        let ghost listed = deref_metas(derives@);
        let mut i: usize = 0;
        while i < derives.len()
            invariant
                i <= derives.len(),
                listed == deref_metas(derives@),
                meta_args(attributes@, "derive"@, true, attributes@.len() as int) == Ok::<
                    Seq<Meta>,
                    SyntaxError,
                >(listed),
                Self::kinds(listed, i as int) == Ok::<Option<ProstType>, SyntaxError>(prost_type),
            decreases derives.len() - i,
        {
            let meta: &Meta = derives[i];
            assert(*meta == listed[i as int]);
            if let Meta::Path(p) = meta {
                let named = if p.is_global("prost", "Message") {
                    Some(ProstType::Message)
                } else if p.is_global("prost", "Enumeration") {
                    Some(ProstType::Enum)
                } else if p.is_global("prost", "Oneof") {
                    Some(ProstType::Oneof)
                } else {
                    None
                };
                if let Some(kind) = named {
                    match set_option_or_err(&mut prost_type, p.span, kind) {
                        Ok(()) => {},
                        Err(e) => {
                            proof {
                                Self::lemma_kinds_error_stays(
                                    listed,
                                    i as int + 1,
                                    listed.len() as int,
                                );
                            }
                            return Err(e);
                        },
                    }
                }
            }
            i += 1;
        }
        let mut found = Switches {
            omit_type_errors: false,
            use_default_for_missing_fields: false,
            ignore_unknown_fields: false,
        };
        let options = match parse_meta_args_from_attrs(attributes, "prost_serde_derive", true) {
            Ok(metas) => metas,
            Err(e) => {
                return Err(e);
            },
        };
        let ghost named = deref_metas(options@);
        let mut k: usize = 0;
        while k < options.len()
            invariant
                k <= options.len(),
                named == deref_metas(options@),
                listed.len() == derives@.len(),
                meta_args(attributes@, "derive"@, true, attributes@.len() as int) == Ok::<
                    Seq<Meta>,
                    SyntaxError,
                >(listed),
                Self::kinds(listed, listed.len() as int) == Ok::<Option<ProstType>, SyntaxError>(
                    prost_type,
                ),
                meta_args(
                    attributes@,
                    "prost_serde_derive"@,
                    true,
                    attributes@.len() as int,
                ) == Ok::<Seq<Meta>, SyntaxError>(named),
                Self::switches(named, k as int) == Ok::<Switches, SyntaxError>(found),
            decreases options.len() - k,
        {
            let meta: &Meta = options[k];
            assert(*meta == named[k as int]);
            let mut recognized = false;
            if let Meta::Path(p) = meta {
                if p.is_ident("omit_type_errors") {
                    found.omit_type_errors = true;
                    recognized = true;
                } else if p.is_ident("use_default_for_missing_fields") {
                    found.use_default_for_missing_fields = true;
                    recognized = true;
                } else if p.is_ident("ignore_unknown_fields") {
                    found.ignore_unknown_fields = true;
                    recognized = true;
                }
            }
            if !recognized {
                proof {
                    Self::lemma_switches_error_stays(named, k as int + 1, named.len() as int);
                }
                return Err(into_syn_error(meta.span(), ErrorKind::UnrecognizedOption));
            }
            k += 1;
        }
        match prost_type {
            None => Err(into_syn_error(Span::call_site(), ErrorKind::MissingProstType)),
            Some(prost_type) => Ok(
                DeriveMeta {
                    prost_type,
                    omit_type_errors: found.omit_type_errors,
                    use_default_for_missing_fields: found.use_default_for_missing_fields,
                    ignore_unknown_fields: found.ignore_unknown_fields,
                },
            ),
        }
    }

    /// Reads the kind of a type and its policy switches from its attributes,
    /// and records in `context` the error of a declaration that gives none.
    pub fn from_ast(context: &mut Context, attributes: &Vec<Attribute>) -> (r: Result<
        DeriveMeta,
        (),
    >)
        ensures
            match Self::spec_from_attributes(attributes@) {
                Ok(meta) => r == Ok::<DeriveMeta, ()>(meta) && final(context).errors() == old(context).errors(),
                Err(e) => r is Err && final(context).errors() == old(context).errors().push(e),
            },
    {
        match Self::from_attributes(attributes) {
            Ok(v) => Ok(v),
            Err(e) => {
                context.push_syn_error(e);
                Err(())
            },
        }
    }
}

/// How a bytes field is held in memory.
#[derive(Debug, Clone, Copy, PartialEq, Eq, Structural)]
pub enum ProstBytesType {
    Bytes,
    Vec,
}

/// The longest text, in characters, that is looked at as the path of a
/// type. A longer text is no path.
pub const PATH_LIMIT: usize = 256;

/// Asks `syn::parse_str` whether `text` can be read as a `syn::Path`. Nothing
/// is claimed of the answer: it is that of the lexer and the parser of the
/// process that asks. The text is short, so the parser, which goes one call
/// deeper with every bracket, stays shallow.
#[verifier::external_body]
fn parses_as_path(text: &String) -> (r: bool)
    requires
        text@.len() <= PATH_LIMIT,
{
    syn::parse_str::<syn::Path>(text.as_str()).is_ok()
}

/// The protobuf type of a field. An enumeration and a oneof name the type
/// that they refer to by its path.
#[derive(Debug, PartialEq, Eq)]
pub enum ProtobufType {
    Message,
    Enumeration(String),
    Bool,
    String,
    Bytes(ProstBytesType),
    Int32,
    Fixed32,
    Uint32,
    Int64,
    Fixed64,
    Uint64,
    Float,
    Double,
    OneOf(String),
}

impl ProtobufType {
    /// The type that a bare directive names.
    pub open spec fn scalar_named(name: Seq<char>) -> Option<ProtobufType> {
        if name == "string"@ {
            Some(ProtobufType::String)
        } else if name == "message"@ {
            Some(ProtobufType::Message)
        } else if name == "bool"@ {
            Some(ProtobufType::Bool)
        } else if name == "int32"@ {
            Some(ProtobufType::Int32)
        } else if name == "fixed32"@ || name == "sfixed32"@ {
            Some(ProtobufType::Fixed32)
        } else if name == "uint32"@ {
            Some(ProtobufType::Uint32)
        } else if name == "int64"@ {
            Some(ProtobufType::Int64)
        } else if name == "fixed64"@ || name == "sfixed64"@ {
            Some(ProtobufType::Fixed64)
        } else if name == "uint64"@ {
            Some(ProtobufType::Uint64)
        } else if name == "float"@ {
            Some(ProtobufType::Float)
        } else if name == "double"@ {
            Some(ProtobufType::Double)
        } else {
            None
        }
    }

    /// The type that a directive `name = "literal"` names. An enumeration
    /// and a oneof refer to a type by the literal, which must be no longer
    /// than `PATH_LIMIT` and a path: `is_path` is the answer to whether it is
    /// one.
    pub open spec fn valued_named(
        name: Seq<char>,
        literal: String,
        at: Span,
        name_at: Span,
        is_path: bool,
    ) -> Result<ProtobufType, SyntaxError> {
        if name == "enumeration"@ {
            if literal@.len() <= PATH_LIMIT && is_path {
                Ok(ProtobufType::Enumeration(literal))
            } else {
                Err(spec_into_syn_error(at, ErrorKind::InvalidPath))
            }
        } else if name == "bytes"@ {
            if literal@ == "bytes"@ {
                Ok(ProtobufType::Bytes(ProstBytesType::Bytes))
            } else if literal@ == "vec"@ {
                Ok(ProtobufType::Bytes(ProstBytesType::Vec))
            } else {
                Err(spec_into_syn_error(at, ErrorKind::ExpectedBytesOrVec))
            }
        } else if name == "oneof"@ {
            if literal@.len() <= PATH_LIMIT && is_path {
                Ok(ProtobufType::OneOf(literal))
            } else {
                Err(spec_into_syn_error(at, ErrorKind::InvalidPath))
            }
        } else {
            Err(spec_into_syn_error(name_at, ErrorKind::UnrecognizedType))
        }
    }

    /// The type that a directive names, or why it names none, given the
    /// answer to whether its literal is a path. The answer matters to an
    /// enumeration and to a oneof only.
    pub open spec fn spec_try_from_given(value: Meta, is_path: bool) -> Result<
        ProtobufType,
        SyntaxError,
    > {
        match value {
            Meta::NameValue(nv) => match nv.value.literal {
                None => Err(spec_into_syn_error(nv.value.span, ErrorKind::ExpectedStringLiteral)),
                Some(literal) => if !nv.path.is_single() {
                    Err(spec_into_syn_error(nv.path.span, ErrorKind::InvalidDirective))
                } else {
                    Self::valued_named(
                        nv.path.segments@[0]@,
                        literal,
                        nv.value.span,
                        nv.path.span,
                        is_path,
                    )
                },
            },
            Meta::Path(p) => if !p.is_single() {
                Err(spec_into_syn_error(p.span, ErrorKind::InvalidDirective))
            } else {
                match Self::scalar_named(p.segments@[0]@) {
                    Some(ty) => Ok(ty),
                    None => Err(spec_into_syn_error(p.span, ErrorKind::UnrecognizedType)),
                }
            },
            Meta::List(p) => Err(spec_into_syn_error(p.span, ErrorKind::InvalidDirective)),
        }
    }

    /// The type `ty`, which refers to another type by the text written at
    /// `at`: the text must be a path, else the directive is in error.
    pub fn referring(is_path: bool, ty: ProtobufType, at: Span) -> (r: Result<
        ProtobufType,
        SyntaxError,
    >)
        ensures
            is_path ==> r == Ok::<ProtobufType, SyntaxError>(ty),
            !is_path ==> r == Err::<ProtobufType, SyntaxError>(
                spec_into_syn_error(at, ErrorKind::InvalidPath),
            ),
    {
        if is_path {
            Ok(ty)
        } else {
            Err(into_syn_error(at, ErrorKind::InvalidPath))
        }
    }

    /// Whether the text is short enough to be asked about, and is answered
    /// to be a path.
    fn is_short_path(text: &String) -> (r: bool)
        ensures
            text@.len() > PATH_LIMIT ==> !r,
    {
        text.as_str().unicode_len() <= PATH_LIMIT && parses_as_path(text)
    }

    /// Reads a directive as the type of a field. For an enumeration and a
    /// oneof the result is that of one of the two answers to whether the
    /// literal is a path; for every other directive the two are one.
    pub fn try_from(value: &Meta) -> (r: Result<ProtobufType, SyntaxError>)
        ensures
            r == Self::spec_try_from_given(*value, true) || r == Self::spec_try_from_given(
                *value,
                false,
            ),
    {
        match value {
            Meta::NameValue(nv) => {
                let literal = match &nv.value.literal {
                    Some(literal) => literal,
                    None => {
                        return Err(
                            into_syn_error(nv.value.span, ErrorKind::ExpectedStringLiteral),
                        );
                    },
                };
                let ident = match get_ident_or_err(&nv.path) {
                    Ok(ident) => ident,
                    Err(e) => {
                        return Err(e);
                    },
                };
                if text_is(ident, "enumeration") {
                    Self::referring(
                        Self::is_short_path(literal),
                        ProtobufType::Enumeration(literal.clone()),
                        nv.value.span,
                    )
                } else if text_is(ident, "bytes") {
                    if text_is(literal, "bytes") {
                        Ok(ProtobufType::Bytes(ProstBytesType::Bytes))
                    } else if text_is(literal, "vec") {
                        Ok(ProtobufType::Bytes(ProstBytesType::Vec))
                    } else {
                        Err(into_syn_error(nv.value.span, ErrorKind::ExpectedBytesOrVec))
                    }
                } else if text_is(ident, "oneof") {
                    Self::referring(
                        Self::is_short_path(literal),
                        ProtobufType::OneOf(literal.clone()),
                        nv.value.span,
                    )
                } else {
                    Err(into_syn_error(nv.path.span, ErrorKind::UnrecognizedType))
                }
            },
            Meta::Path(p) => {
                let ident = match get_ident_or_err(p) {
                    Ok(ident) => ident,
                    Err(e) => {
                        return Err(e);
                    },
                };
                if text_is(ident, "string") {
                    Ok(ProtobufType::String)
                } else if text_is(ident, "message") {
                    Ok(ProtobufType::Message)
                } else if text_is(ident, "bool") {
                    Ok(ProtobufType::Bool)
                } else if text_is(ident, "int32") {
                    Ok(ProtobufType::Int32)
                } else if text_is(ident, "fixed32") || text_is(ident, "sfixed32") {
                    Ok(ProtobufType::Fixed32)
                } else if text_is(ident, "uint32") {
                    Ok(ProtobufType::Uint32)
                } else if text_is(ident, "int64") {
                    Ok(ProtobufType::Int64)
                } else if text_is(ident, "fixed64") || text_is(ident, "sfixed64") {
                    Ok(ProtobufType::Fixed64)
                } else if text_is(ident, "uint64") {
                    Ok(ProtobufType::Uint64)
                } else if text_is(ident, "float") {
                    Ok(ProtobufType::Float)
                } else if text_is(ident, "double") {
                    Ok(ProtobufType::Double)
                } else {
                    Err(into_syn_error(p.span, ErrorKind::UnrecognizedType))
                }
            },
            Meta::List(p) => Err(into_syn_error(p.span, ErrorKind::InvalidDirective)),
        }
    }

    /// Whether the two are one type: the same type of the catalog, and for an
    /// enumeration or a oneof the same path.
    pub open spec fn spec_same(&self, other: ProtobufType) -> bool {
        match (*self, other) {
            (ProtobufType::Message, ProtobufType::Message) => true,
            (ProtobufType::Enumeration(a), ProtobufType::Enumeration(b)) => a@ == b@,
            (ProtobufType::Bool, ProtobufType::Bool) => true,
            (ProtobufType::String, ProtobufType::String) => true,
            (ProtobufType::Bytes(a), ProtobufType::Bytes(b)) => a == b,
            (ProtobufType::Int32, ProtobufType::Int32) => true,
            (ProtobufType::Fixed32, ProtobufType::Fixed32) => true,
            (ProtobufType::Uint32, ProtobufType::Uint32) => true,
            (ProtobufType::Int64, ProtobufType::Int64) => true,
            (ProtobufType::Fixed64, ProtobufType::Fixed64) => true,
            (ProtobufType::Uint64, ProtobufType::Uint64) => true,
            (ProtobufType::Float, ProtobufType::Float) => true,
            (ProtobufType::Double, ProtobufType::Double) => true,
            (ProtobufType::OneOf(a), ProtobufType::OneOf(b)) => a@ == b@,
            _ => false,
        }
    }

    /// Whether the two are one type.
    pub fn same(&self, other: &ProtobufType) -> (r: bool)
        ensures
            r == self.spec_same(*other),
    {
        match (self, other) {
            (ProtobufType::Message, ProtobufType::Message) => true,
            (ProtobufType::Enumeration(a), ProtobufType::Enumeration(b)) => *a == *b,
            (ProtobufType::Bool, ProtobufType::Bool) => true,
            (ProtobufType::String, ProtobufType::String) => true,
            (ProtobufType::Bytes(a), ProtobufType::Bytes(b)) => match (a, b) {
                (ProstBytesType::Bytes, ProstBytesType::Bytes) => true,
                (ProstBytesType::Vec, ProstBytesType::Vec) => true,
                _ => false,
            },
            (ProtobufType::Int32, ProtobufType::Int32) => true,
            (ProtobufType::Fixed32, ProtobufType::Fixed32) => true,
            (ProtobufType::Uint32, ProtobufType::Uint32) => true,
            (ProtobufType::Int64, ProtobufType::Int64) => true,
            (ProtobufType::Fixed64, ProtobufType::Fixed64) => true,
            (ProtobufType::Uint64, ProtobufType::Uint64) => true,
            (ProtobufType::Float, ProtobufType::Float) => true,
            (ProtobufType::Double, ProtobufType::Double) => true,
            (ProtobufType::OneOf(a), ProtobufType::OneOf(b)) => *a == *b,
            _ => false,
        }
    }

    /// A copy of the type.
    pub fn clone(&self) -> (r: ProtobufType)
        ensures
            r == *self,
    {
        match self {
            ProtobufType::Message => ProtobufType::Message,
            ProtobufType::Enumeration(path) => ProtobufType::Enumeration(path.clone()),
            ProtobufType::Bool => ProtobufType::Bool,
            ProtobufType::String => ProtobufType::String,
            ProtobufType::Bytes(held) => ProtobufType::Bytes(*held),
            ProtobufType::Int32 => ProtobufType::Int32,
            ProtobufType::Fixed32 => ProtobufType::Fixed32,
            ProtobufType::Uint32 => ProtobufType::Uint32,
            ProtobufType::Int64 => ProtobufType::Int64,
            ProtobufType::Fixed64 => ProtobufType::Fixed64,
            ProtobufType::Uint64 => ProtobufType::Uint64,
            ProtobufType::Float => ProtobufType::Float,
            ProtobufType::Double => ProtobufType::Double,
            ProtobufType::OneOf(path) => ProtobufType::OneOf(path.clone()),
        }
    }
}

/// The cardinality of a field: exactly one value, any number of values, or
/// at most one.
#[derive(Debug, Clone, Copy, PartialEq, Eq, Structural)]
pub enum FieldModifier {
    Singular,
    Repeated,
    Optional,
}

impl Default for FieldModifier {
    fn default() -> (r: FieldModifier)
        ensures
            r == FieldModifier::Singular,
    {
        FieldModifier::Singular
    }
}

impl FieldModifier {
    /// The cardinality that a directive names, or why it names none.
    pub open spec fn spec_try_from(value: Meta) -> Result<FieldModifier, SyntaxError> {
        match value {
            Meta::Path(p) => if !p.is_single() {
                Err(spec_into_syn_error(p.span, ErrorKind::InvalidDirective))
            } else if p.segments@[0]@ == "repeated"@ {
                Ok(FieldModifier::Repeated)
            } else if p.segments@[0]@ == "optional"@ {
                Ok(FieldModifier::Optional)
            } else {
                Err(spec_into_syn_error(p.span, ErrorKind::UnrecognizedModifier))
            },
            _ => Err(spec_into_syn_error(value.spec_span(), ErrorKind::InvalidDirective)),
        }
    }

    /// Reads a directive as the cardinality of a field.
    pub fn try_from(value: &Meta) -> (r: Result<FieldModifier, SyntaxError>)
        ensures
            r == Self::spec_try_from(*value),
    {
        if let Meta::Path(p) = value {
            let ident = match get_ident_or_err(p) {
                Ok(ident) => ident,
                Err(e) => {
                    return Err(e);
                },
            };
            if text_is(ident, "repeated") {
                Ok(FieldModifier::Repeated)
            } else if text_is(ident, "optional") {
                Ok(FieldModifier::Optional)
            } else {
                Err(into_syn_error(p.span, ErrorKind::UnrecognizedModifier))
            }
        } else {
            Err(into_syn_error(value.span(), ErrorKind::InvalidDirective))
        }
    }
}

/// The tag of a field, or the tags of the variants of a oneof.
#[derive(Debug, PartialEq, Eq)]
pub enum Tag {
    Tag(i32),
    OneofTag(Vec<i32>),
}

/// What a `Tag` holds.
pub enum TagView {
    Tag(i32),
    OneofTag(Seq<i32>),
}

impl View for Tag {
    type V = TagView;

    open spec fn view(&self) -> TagView {
        match self {
            Tag::Tag(tag) => TagView::Tag(*tag),
            Tag::OneofTag(tags) => TagView::OneofTag(tags@),
        }
    }
}

impl Tag {
    /// The tag or tags that a directive gives, or why it gives none.
    pub open spec fn spec_try_from(value: Meta) -> Result<TagView, SyntaxError> {
        match value {
            Meta::NameValue(nv) => if nv.path.spec_is_ident("tag"@) {
                match nv.value.literal {
                    None => Err(
                        spec_into_syn_error(nv.value.span, ErrorKind::ExpectedStringLiteral),
                    ),
                    Some(literal) => match spec_parse_i32(literal@) {
                        Some(tag) => Ok(TagView::Tag(tag)),
                        None => Err(spec_into_syn_error(nv.value.span, ErrorKind::InvalidTagValue)),
                    },
                }
            } else if nv.path.spec_is_ident("tags"@) {
                match nv.value.literal {
                    None => Err(
                        spec_into_syn_error(nv.value.span, ErrorKind::ExpectedStringLiteral),
                    ),
                    Some(literal) => match spec_parse_tags(literal@) {
                        Some(tags) => Ok(TagView::OneofTag(tags)),
                        None => Err(
                            spec_into_syn_error(nv.value.span, ErrorKind::InvalidTagValues),
                        ),
                    },
                }
            } else {
                Err(spec_into_syn_error(nv.path.span, ErrorKind::InvalidDirective))
            },
            _ => Err(spec_into_syn_error(value.spec_span(), ErrorKind::InvalidDirective)),
        }
    }

    /// Reads a directive as the tag of a field or the tags of a oneof.
    pub fn try_from(value: &Meta) -> (r: Result<Tag, SyntaxError>)
        ensures
            match Self::spec_try_from(*value) {
                Ok(tag) => r is Ok && r->Ok_0@ == tag,
                Err(e) => r == Err::<Tag, SyntaxError>(e),
            },
    {
        if let Meta::NameValue(nv) = value {
            if nv.path.is_ident("tag") {
                let literal = match &nv.value.literal {
                    Some(literal) => literal,
                    None => {
                        return Err(
                            into_syn_error(nv.value.span, ErrorKind::ExpectedStringLiteral),
                        );
                    },
                };
                match parse_i32(literal.as_str()) {
                    Some(tag) => Ok(Tag::Tag(tag)),
                    None => Err(into_syn_error(nv.value.span, ErrorKind::InvalidTagValue)),
                }
            } else if nv.path.is_ident("tags") {
                let literal = match &nv.value.literal {
                    Some(literal) => literal,
                    None => {
                        return Err(
                            into_syn_error(nv.value.span, ErrorKind::ExpectedStringLiteral),
                        );
                    },
                };
                match parse_tags(literal.as_str()) {
                    Some(tags) => Ok(Tag::OneofTag(tags)),
                    None => Err(into_syn_error(nv.value.span, ErrorKind::InvalidTagValues)),
                }
            } else {
                Err(into_syn_error(nv.path.span, ErrorKind::InvalidDirective))
            }
        } else {
            Err(into_syn_error(value.span(), ErrorKind::InvalidDirective))
        }
    }
}

/// The value that stands in for one that is missing or of the wrong shape.
#[derive(Debug, PartialEq, Eq)]
pub enum DefaultValue {
    /// The default variant of the enumeration at this path.
    Enumeration(String),
    /// The zero value of the field's type.
    Type,
}

/// What the `prost` directives of a field say of it.
#[derive(Debug, PartialEq, Eq)]
pub struct ProstAttr {
    pub ty: ProtobufType,
    pub modifier: FieldModifier,
    pub tag: Tag,
}

/// What the directives read so far have given of a field.
pub struct AttrParts {
    pub ty: Option<ProtobufType>,
    pub modifier: Option<FieldModifier>,
    pub tag: Option<TagView>,
}

/// What a `ProstAttr` holds.
pub struct ProstAttrView {
    pub ty: ProtobufType,
    pub modifier: FieldModifier,
    pub tag: TagView,
}

impl View for ProstAttr {
    type V = ProstAttrView;

    open spec fn view(&self) -> ProstAttrView {
        ProstAttrView { ty: self.ty, modifier: self.modifier, tag: self.tag@ }
    }
}

impl ProstAttr {
    /// The answers for the field or variant at the place `i`; none where
    /// none were given.
    pub open spec fn answers_of(answers: Seq<Seq<bool>>, i: int) -> Seq<bool> {
        if 0 <= i < answers.len() {
            answers[i]
        } else {
            Seq::empty()
        }
    }

    /// The answer at the place `i`; `false` where none was given.
    pub open spec fn answer(answers: Seq<bool>, i: int) -> bool {
        0 <= i < answers.len() && answers[i]
    }

    /// What the first `n` directives give of a field. A directive that is a
    /// type, a cardinality or a tag gives that part, and no part may be given
    /// twice; any other directive is passed over. `answers` holds, for every
    /// directive, the answer to whether its literal is a path.
    pub open spec fn parts(metas: Seq<Meta>, answers: Seq<bool>, n: int) -> Result<
        AttrParts,
        SyntaxError,
    >
        decreases n,
    {
        if n <= 0 || n > metas.len() {
            Ok(AttrParts { ty: None, modifier: None, tag: None })
        } else {
            let meta = metas[n - 1];
            let twice = Err(spec_into_syn_error(meta.spec_span(), ErrorKind::DuplicateAttribute));
            match Self::parts(metas, answers, n - 1) {
                Err(e) => Err(e),
                Ok(found) => if let Ok(ty) = ProtobufType::spec_try_from_given(
                    meta,
                    Self::answer(answers, n - 1),
                ) {
                    if found.ty is Some {
                        twice
                    } else {
                        Ok(AttrParts { ty: Some(ty), ..found })
                    }
                } else if let Ok(modifier) = FieldModifier::spec_try_from(meta) {
                    if found.modifier is Some {
                        twice
                    } else {
                        Ok(AttrParts { modifier: Some(modifier), ..found })
                    }
                } else if let Ok(tag) = Tag::spec_try_from(meta) {
                    if found.tag is Some {
                        twice
                    } else {
                        Ok(AttrParts { tag: Some(tag), ..found })
                    }
                } else {
                    Ok(found)
                },
            }
        }
    }

    /// What the attributes of a field say of it: the type and the tag that
    /// its `prost` lists give, both of which it must have, and the
    /// cardinality, which is `Singular` where no directive names one.
    /// `answers` holds, for every directive of those lists, the answer to
    /// whether its literal is a path.
    pub open spec fn spec_from_attributes(attrs: Seq<Attribute>, answers: Seq<bool>) -> Result<
        ProstAttrView,
        SyntaxError,
    > {
        match meta_args(attrs, "prost"@, false, attrs.len() as int) {
            Err(e) => Err(e),
            Ok(metas) => match Self::parts(metas, answers, metas.len() as int) {
                Err(e) => Err(e),
                Ok(found) => match found.ty {
                    None => Err(spec_into_syn_error(Span::spec_call_site(), ErrorKind::MissingType)),
                    Some(ty) => match found.tag {
                        None => Err(
                            spec_into_syn_error(Span::spec_call_site(), ErrorKind::MissingTag),
                        ),
                        Some(tag) => Ok(
                            ProstAttrView {
                                ty,
                                modifier: match found.modifier {
                                    Some(modifier) => modifier,
                                    None => FieldModifier::Singular,
                                },
                                tag,
                            },
                        ),
                    },
                },
            },
        }
    }

    /// Once a directive has an error, that error stays.
    pub proof fn lemma_parts_error_stays(metas: Seq<Meta>, answers: Seq<bool>, n: int, m: int)
        requires
            0 <= n <= m <= metas.len(),
            Self::parts(metas, answers, n) is Err,
        ensures
            Self::parts(metas, answers, m) == Self::parts(metas, answers, n),
        decreases m - n,
    {
        if n < m {
            Self::lemma_parts_error_stays(metas, answers, n, m - 1);
        }
    }

    /// What the first `n` directives give depends on the first `n` answers
    /// only.
    pub proof fn lemma_parts_of_first_answers(
        metas: Seq<Meta>,
        answers: Seq<bool>,
        others: Seq<bool>,
        n: int,
    )
        requires
            forall|i: int| 0 <= i < n ==> Self::answer(answers, i) == Self::answer(others, i),
        ensures
            Self::parts(metas, answers, n) == Self::parts(metas, others, n),
        decreases n,
    {
        if !(n <= 0 || n > metas.len()) {
            Self::lemma_parts_of_first_answers(metas, answers, others, n - 1);
        }
    }

    /// Whether `r` is what the attributes of a field are read as under
    /// `answers`.
    pub open spec fn reads(
        attrs: Seq<Attribute>,
        answers: Seq<bool>,
        r: Result<ProstAttr, SyntaxError>,
    ) -> bool {
        match Self::spec_from_attributes(attrs, answers) {
            Ok(attr) => r is Ok && r->Ok_0@ == attr,
            Err(e) => r == Err::<ProstAttr, SyntaxError>(e),
        }
    }

    /// Whether `r` is what the attributes of a field are read as under
    /// `answers`, and `after` the errors `before` with that of the reading,
    /// if it has one.
    pub open spec fn records(
        attrs: Seq<Attribute>,
        answers: Seq<bool>,
        r: Result<ProstAttr, ()>,
        before: Seq<SyntaxError>,
        after: Seq<SyntaxError>,
    ) -> bool {
        match Self::spec_from_attributes(attrs, answers) {
            Ok(attr) => r is Ok && r->Ok_0@ == attr && after == before,
            Err(e) => r is Err && after == before.push(e),
        }
    }

    /// Reads the type, the cardinality and the tag of a field from its
    /// attributes. Whether the literal of an enumeration or of a oneof is a
    /// path is asked of the parser; the result is that of the answers given.
    pub fn from_attributes(attrs: &Vec<Attribute>) -> (r: Result<ProstAttr, SyntaxError>)
        ensures
            exists|answers: Seq<bool>| #[trigger] Self::reads(attrs@, answers, r),
    {
        let metas = match parse_meta_args_from_attrs(attrs, "prost", false) {
            Ok(metas) => metas,
            Err(e) => {
                assert(Self::reads(attrs@, Seq::<bool>::empty(), Err(e)));
                return Err(e);
            },
        };
        let ghost listed = deref_metas(metas@);
        let ghost mut answers: Seq<bool> = Seq::empty();
        let mut ty: Option<ProtobufType> = None;
        let mut modifier: Option<FieldModifier> = None;
        let mut tag: Option<Tag> = None;
        let mut i: usize = 0;
        while i < metas.len()
            invariant
                i <= metas.len(),
                listed == deref_metas(metas@),
                meta_args(attrs@, "prost"@, false, attrs@.len() as int) == Ok::<
                    Seq<Meta>,
                    SyntaxError,
                >(listed),
                answers.len() == i,
                Self::parts(listed, answers, i as int) == Ok::<AttrParts, SyntaxError>(
                    AttrParts {
                        ty,
                        modifier,
                        tag: match tag {
                            Some(t) => Some(t@),
                            None => None,
                        },
                    },
                ),
            decreases metas.len() - i,
        {
            let meta: &Meta = metas[i];
            assert(*meta == listed[i as int]);
            let read = ProtobufType::try_from(meta);
            proof {
                let earlier = answers;
                answers = answers.push(read == ProtobufType::spec_try_from_given(*meta, true));
                Self::lemma_parts_of_first_answers(listed, answers, earlier, i as int);
                assert(read == ProtobufType::spec_try_from_given(
                    *meta,
                    Self::answer(answers, i as int),
                ));
            }
            let outcome = if let Ok(t) = read {
                set_option_or_err(&mut ty, meta.span(), t)
            } else if let Ok(m) = FieldModifier::try_from(meta) {
                set_option_or_err(&mut modifier, meta.span(), m)
            } else if let Ok(t) = Tag::try_from(meta) {
                set_option_or_err(&mut tag, meta.span(), t)
            } else {
                Ok(())
            };
            if let Err(e) = outcome {
                proof {
                    Self::lemma_parts_error_stays(
                        listed,
                        answers,
                        i as int + 1,
                        listed.len() as int,
                    );
                    assert(Self::reads(attrs@, answers, Err(e)));
                }
                return Err(e);
            }
            i += 1;
        }
        let ty = match ty {
            Some(ty) => ty,
            None => {
                let e = into_syn_error(Span::call_site(), ErrorKind::MissingType);
                assert(Self::reads(attrs@, answers, Err(e)));
                return Err(e);
            },
        };
        let tag = match tag {
            Some(tag) => tag,
            None => {
                let e = into_syn_error(Span::call_site(), ErrorKind::MissingTag);
                assert(Self::reads(attrs@, answers, Err(e)));
                return Err(e);
            },
        };
        let modifier = match modifier {
            Some(modifier) => modifier,
            None => FieldModifier::Singular,
        };
        let attr = ProstAttr { ty, modifier, tag };
        assert(Self::reads(attrs@, answers, Ok(attr)));
        Ok(attr)
    }

    /// Reads the type, the cardinality and the tag of a field from its
    /// attributes, and records in `context` the error of a declaration that
    /// gives none.
    pub fn from_ast(context: &mut Context, attrs: &Vec<Attribute>) -> (r: Result<ProstAttr, ()>)
        ensures
            exists|answers: Seq<bool>| #[trigger]
                Self::records(
                    attrs@,
                    answers,
                    r,
                    old(context).errors(),
                    final(context).errors(),
                ),
    {
        match Self::from_attributes(attrs) {
            Ok(v) => {
                proof {
                    let answers = choose|answers: Seq<bool>| #[trigger]
                        Self::reads(attrs@, answers, Ok(v));
                    assert(Self::records(
                        attrs@,
                        answers,
                        Ok(v),
                        context.errors(),
                        context.errors(),
                    ));
                }
                Ok(v)
            },
            Err(e) => {
                let ghost before = context.errors();
                context.push_syn_error(e);
                proof {
                    let answers = choose|answers: Seq<bool>| #[trigger]
                        Self::reads(attrs@, answers, Err(e));
                    assert(Self::records(attrs@, answers, Err(()), before, context.errors()));
                }
                Err(())
            },
        }
    }

    /// The value that stands in for a missing or ill-shaped value of a field
    /// of type `ty` and cardinality `modifier`.
    pub open spec fn default_value_of(ty: ProtobufType, modifier: FieldModifier) -> DefaultValue {
        match (modifier, ty) {
            (FieldModifier::Singular, ProtobufType::Enumeration(path)) => DefaultValue::Enumeration(
                path,
            ),
            _ => DefaultValue::Type,
        }
    }

    /// The value that stands in for a missing or ill-shaped value of the
    /// field: for a singular enumeration its default variant, else the zero
    /// value of the type.
    pub fn get_default_value(&self) -> (r: DefaultValue)
        ensures
            r == Self::default_value_of(self.ty, self.modifier),
    {
        match self.modifier {
            FieldModifier::Singular => match &self.ty {
                ProtobufType::Enumeration(p) => DefaultValue::Enumeration(p.clone()),
                _ => DefaultValue::Type,
            },
            _ => DefaultValue::Type,
        }
    }
}

} // verus!
