//! The encoding strategy of one field.

use vstd::prelude::*;
use crate::attr::{FieldModifier, ProstAttr, ProtobufType};
use crate::context::{Context, ErrorKind, SyntaxError};
use crate::syntax::{Field, Span};

verus! {

/// How a field is written.
#[derive(Debug, PartialEq, Eq)]
pub enum FieldSerializer {
    /// A oneof: its active variant is written under the variant's own key,
    /// and nothing where it is unset.
    Flatten { oneof: String },
    /// Any other field: it is written under its name.
    Emit { name: String, ty: ProtobufType, modifier: FieldModifier, message: String },
}

/// How a field is written, or the error of its declaration: that it has no
/// name, else that of its directives, else that it is a oneof with a
/// cardinality. A oneof is flattened; any other field is written under its
/// name, by its type and cardinality. `answers` holds, for every directive,
/// the answer to whether its literal is a path.
pub open spec fn field_serializer(field: Field, answers: Seq<bool>) -> Result<
    FieldSerializer,
    SyntaxError,
> {
    match field.ident {
        None => Err(SyntaxError { span: field.span, kind: ErrorKind::FieldWithoutName }),
        Some(ident) => match ProstAttr::spec_from_attributes(field.attrs@, answers) {
            Err(e) => Err(e),
            Ok(attr) => match attr.ty {
                ProtobufType::OneOf(path) => if attr.modifier != FieldModifier::Singular {
                    Err(
                        SyntaxError {
                            span: Span::spec_call_site(),
                            kind: ErrorKind::OneofWithModifier,
                        },
                    )
                } else {
                    Ok(FieldSerializer::Flatten { oneof: path })
                },
                _ => Ok(
                    FieldSerializer::Emit {
                        name: ident.name,
                        ty: attr.ty,
                        modifier: attr.modifier,
                        message: field.ty,
                    },
                ),
            },
        },
    }
}

/// Whether `r` is how the field is written under `answers`, and `after` the
/// errors `before` with that of its declaration, if it has one.
pub open spec fn serialized(
    field: Field,
    answers: Seq<bool>,
    r: Result<FieldSerializer, ()>,
    before: Seq<SyntaxError>,
    after: Seq<SyntaxError>,
) -> bool {
    match field_serializer(field, answers) {
        Ok(serializer) => r == Ok::<FieldSerializer, ()>(serializer) && after == before,
        Err(e) => r is Err && after == before.push(e),
    }
}

/// Builds the encoding strategy of a field. An error of its declaration is
/// recorded in `context`: a oneof that is optional or repeated is one.
/// Whether a literal is a path is asked of the parser; the result is that of
/// the answers given.
pub fn serialize_field(context: &mut Context, field: &Field) -> (r: Result<FieldSerializer, ()>)
    ensures
        exists|answers: Seq<bool>| #[trigger]
            serialized(*field, answers, r, old(context).errors(), final(context).errors()),
{
    let ghost before = context.errors();
    let ident = match &field.ident {
        Some(ident) => ident,
        None => {
            context.push_error_spanned_by(field.span, ErrorKind::FieldWithoutName);
            assert(serialized(*field, Seq::<bool>::empty(), Err(()), before, context.errors()));
            return Err(());
        },
    };
    let read = ProstAttr::from_ast(context, &field.attrs);
    let ghost answers = choose|answers: Seq<bool>| #[trigger]
        ProstAttr::records(field.attrs@, answers, read, before, context.errors());
    let prost_attr = match read {
        Ok(attr) => attr,
        Err(()) => {
            assert(serialized(*field, answers, Err(()), before, context.errors()));
            return Err(());
        },
    };
    // A oneof is the one field that is written under another name than its
    // own, and the one that has no cardinality.
    if let ProtobufType::OneOf(path) = &prost_attr.ty {
        match prost_attr.modifier {
            FieldModifier::Singular => {
                let r = Ok(FieldSerializer::Flatten { oneof: path.clone() });
                assert(serialized(*field, answers, r, before, context.errors()));
                return r;
            },
            _ => {
                context.push_error_spanned_by(Span::call_site(), ErrorKind::OneofWithModifier);
                assert(serialized(*field, answers, Err(()), before, context.errors()));
                return Err(());
            },
        }
    }
    let r = Ok(
        FieldSerializer::Emit {
            name: ident.name.clone(),
            ty: prost_attr.ty.clone(),
            modifier: prost_attr.modifier,
            message: field.ty.clone(),
        },
    );
    assert(serialized(*field, answers, r, before, context.errors()));
    r
}

} // verus!
