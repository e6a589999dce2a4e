//! The decoding strategy of one field.

use vstd::prelude::*;
use crate::attr::{DefaultValue, DeriveMeta, FieldModifier, ProstAttr, ProtobufType};
use crate::context::{Context, ErrorKind, SyntaxError};
use crate::syntax::Span;

verus! {

/// How the value under a key that answers to the field is read.
#[derive(Debug, PartialEq, Eq)]
pub struct ValueGetter {
    pub modifier: FieldModifier,
    pub ty: ProtobufType,
    /// The name of the field's type, where it is a message.
    pub message: String,
    /// What stands in for a value of the wrong shape; with `None` the
    /// mismatch is an error.
    pub fallback: Option<DefaultValue>,
}

/// What becomes of the field at the end of the object.
#[derive(Debug, PartialEq, Eq)]
pub enum Narrowing {
    /// The field must have been given.
    Required,
    /// A field that was not given gets this value.
    Default(DefaultValue),
    /// A repeated field that was not given is empty.
    Empty,
    /// An optional field that was not given is absent.
    Absent,
    /// A oneof that was not given is unset.
    Unset,
}

/// The decoding strategy of a field.
#[derive(Debug, PartialEq, Eq)]
pub struct FieldVisitorTokenStream {
    pub value_getter_expr: ValueGetter,
    pub narrowing_expr: Narrowing,
}

/// Builds the decoding strategies of the fields of one type, under the
/// policy switches of that type.
#[derive(Debug, Clone, Copy, PartialEq, Eq, Structural)]
pub struct FieldVisitorTokenGenerator {
    pub meta: DeriveMeta,
}

/// The error of a oneof that is declared optional or repeated.
pub open spec fn oneof_with_modifier() -> SyntaxError {
    SyntaxError { span: Span::spec_call_site(), kind: ErrorKind::OneofWithModifier }
}

impl FieldVisitorTokenGenerator {
    /// A generator under the policy switches of `meta`.
    pub fn new(meta: &DeriveMeta) -> (r: FieldVisitorTokenGenerator)
        ensures
            r.meta == *meta,
    {
        FieldVisitorTokenGenerator { meta: *meta }
    }

    /// How a field of type `ty` and cardinality `modifier` is read: by its
    /// type and cardinality, with the field's default as fallback where type
    /// errors are omitted. A oneof has no fallback: its errors are never
    /// omitted.
    pub open spec fn spec_value_getter(
        &self,
        ty: ProtobufType,
        modifier: FieldModifier,
        message: String,
    ) -> ValueGetter {
        ValueGetter {
            modifier,
            ty,
            message,
            fallback: if self.meta.omit_type_errors && !(ty is OneOf) {
                Some(ProstAttr::default_value_of(ty, modifier))
            } else {
                None
            },
        }
    }

    /// Whether a field of this type and cardinality cannot be: a oneof that
    /// is optional or repeated.
    pub open spec fn refused(ty: ProtobufType, modifier: FieldModifier) -> bool {
        ty is OneOf && modifier != FieldModifier::Singular
    }

    /// What becomes of a field of type `ty` and cardinality `modifier` that
    /// was not given. A oneof is unset, an optional field absent, a repeated
    /// field empty, whatever the policy; a singular field is required, or
    /// takes its default where missing fields get one.
    pub open spec fn spec_narrowing(&self, ty: ProtobufType, modifier: FieldModifier) -> Narrowing {
        match ty {
            ProtobufType::OneOf(_) => Narrowing::Unset,
            _ => match modifier {
                FieldModifier::Singular => if self.meta.use_default_for_missing_fields {
                    Narrowing::Default(ProstAttr::default_value_of(ty, modifier))
                } else {
                    Narrowing::Required
                },
                FieldModifier::Repeated => Narrowing::Empty,
                FieldModifier::Optional => Narrowing::Absent,
            },
        }
    }

    /// The decoding strategy of a field of type `ty` and cardinality
    /// `modifier`.
    pub open spec fn spec_expand(
        &self,
        ty: ProtobufType,
        modifier: FieldModifier,
        message: String,
    ) -> FieldVisitorTokenStream {
        FieldVisitorTokenStream {
            value_getter_expr: self.spec_value_getter(ty, modifier, message),
            narrowing_expr: self.spec_narrowing(ty, modifier),
        }
    }

    /// Says how the field is read, with `default_value` as fallback where
    /// type errors are omitted.
    fn value_getter(&self, prost_attr: &ProstAttr, message: &String, default_value: DefaultValue) -> (r:
        ValueGetter)
        requires
            default_value == ProstAttr::default_value_of(prost_attr.ty, prost_attr.modifier),
        ensures
            r == self.spec_value_getter(prost_attr.ty, prost_attr.modifier, *message),
    {
        ValueGetter {
            modifier: prost_attr.modifier,
            ty: prost_attr.ty.clone(),
            message: message.clone(),
            fallback: match prost_attr.ty {
                ProtobufType::OneOf(_) => None,
                _ => if self.meta.omit_type_errors {
                    Some(default_value)
                } else {
                    None
                },
            },
        }
    }

    /// Says how a singular field is read. Every type can be singular.
    pub fn get_none_value_getter_expr(&self, prost_attr: &ProstAttr, message: &String) -> (r: Result<
        ValueGetter,
        (),
    >)
        ensures
            r == Ok::<ValueGetter, ()>(
                self.spec_value_getter(prost_attr.ty, prost_attr.modifier, *message),
            ),
    {
        Ok(self.value_getter(prost_attr, message, prost_attr.get_default_value()))
    }

    /// Says how a repeated field is read. A oneof cannot be repeated.
    pub fn get_repeated_value_getter_expr(
        &self,
        context: &mut Context,
        prost_attr: &ProstAttr,
        message: &String,
    ) -> (r: Result<ValueGetter, ()>)
        ensures
            prost_attr.ty is OneOf ==> {
                &&& r is Err
                &&& final(context).errors() == old(context).errors().push(oneof_with_modifier())
            },
            !(prost_attr.ty is OneOf) ==> {
                &&& r == Ok::<ValueGetter, ()>(
                    self.spec_value_getter(prost_attr.ty, prost_attr.modifier, *message),
                )
                &&& final(context).errors() == old(context).errors()
            },
    {
        match prost_attr.ty {
            ProtobufType::OneOf(_) => {
                context.push_error_spanned_by(Span::call_site(), ErrorKind::OneofWithModifier);
                Err(())
            },
            _ => Ok(self.value_getter(prost_attr, message, prost_attr.get_default_value())),
        }
    }

    /// Says how an optional field is read. A oneof cannot be optional.
    pub fn get_optional_value_getter_expr(
        &self,
        context: &mut Context,
        prost_attr: &ProstAttr,
        message: &String,
    ) -> (r: Result<ValueGetter, ()>)
        ensures
            prost_attr.ty is OneOf ==> {
                &&& r is Err
                &&& final(context).errors() == old(context).errors().push(oneof_with_modifier())
            },
            !(prost_attr.ty is OneOf) ==> {
                &&& r == Ok::<ValueGetter, ()>(
                    self.spec_value_getter(prost_attr.ty, prost_attr.modifier, *message),
                )
                &&& final(context).errors() == old(context).errors()
            },
    {
        match prost_attr.ty {
            ProtobufType::OneOf(_) => {
                context.push_error_spanned_by(Span::call_site(), ErrorKind::OneofWithModifier);
                Err(())
            },
            _ => Ok(self.value_getter(prost_attr, message, prost_attr.get_default_value())),
        }
    }

    /// Says how the field is read, by its cardinality. A oneof with a
    /// cardinality is a declaration error, recorded in `context`.
    pub fn get_value_getter_expr(
        &self,
        context: &mut Context,
        prost_attr: &ProstAttr,
        message: &String,
    ) -> (r: Result<ValueGetter, ()>)
        ensures
            Self::refused(prost_attr.ty, prost_attr.modifier) ==> {
                &&& r is Err
                &&& final(context).errors() == old(context).errors().push(oneof_with_modifier())
            },
            !Self::refused(prost_attr.ty, prost_attr.modifier) ==> {
                &&& r == Ok::<ValueGetter, ()>(
                    self.spec_value_getter(prost_attr.ty, prost_attr.modifier, *message),
                )
                &&& final(context).errors() == old(context).errors()
            },
    {
        match prost_attr.modifier {
            FieldModifier::Singular => self.get_none_value_getter_expr(prost_attr, message),
            FieldModifier::Repeated => self.get_repeated_value_getter_expr(
                context,
                prost_attr,
                message,
            ),
            FieldModifier::Optional => self.get_optional_value_getter_expr(
                context,
                prost_attr,
                message,
            ),
        }
    }

    /// Builds the decoding strategy of a field: how it is read, and what
    /// becomes of it where it was not given. A oneof with a cardinality is a
    /// declaration error, recorded in `context`.
    pub fn expand(&self, context: &mut Context, prost_attr: &ProstAttr, message: &String) -> (r:
        Result<FieldVisitorTokenStream, ()>)
        ensures
            Self::refused(prost_attr.ty, prost_attr.modifier) ==> {
                &&& r is Err
                &&& final(context).errors() == old(context).errors().push(oneof_with_modifier())
            },
            !Self::refused(prost_attr.ty, prost_attr.modifier) ==> {
                &&& r == Ok::<FieldVisitorTokenStream, ()>(
                    self.spec_expand(prost_attr.ty, prost_attr.modifier, *message),
                )
                &&& final(context).errors() == old(context).errors()
            },
    {
        let value_getter_expr = match self.get_value_getter_expr(context, prost_attr, message) {
            Ok(getter) => getter,
            Err(()) => {
                return Err(());
            },
        };
        let narrowing_expr = match prost_attr.ty {
            ProtobufType::OneOf(_) => Narrowing::Unset,
            _ => match prost_attr.modifier {
                FieldModifier::Singular => {
                    if self.meta.use_default_for_missing_fields {
                        Narrowing::Default(prost_attr.get_default_value())
                    } else {
                        Narrowing::Required
                    }
                },
                FieldModifier::Repeated => Narrowing::Empty,
                FieldModifier::Optional => Narrowing::Absent,
            },
        };
        Ok(FieldVisitorTokenStream { value_getter_expr, narrowing_expr })
    }
}

} // verus!
