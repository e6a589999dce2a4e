//! Building the decoder of a declared type.

pub mod enumeration;
pub mod field;
pub mod structure;

use vstd::prelude::*;
use crate::attr::{DeriveMeta, ProstType};
use crate::catalog::OneofRegistry;
use crate::context::{Context, ErrorKind, SyntaxError};
use crate::deserialize::enumeration::{
    expand_enum,
    expand_oneof_field_names_method,
    expands_enum,
    oneof_field_names,
    registers,
    typed_variants,
};
use crate::deserialize::structure::{expand_struct, expands, struct_error, visits, StructVisitor};
use crate::gather::gather;
use crate::syntax::{Data, DeriveInput, Fields};
use crate::util::collected;

verus! {

/// How a value of a declared type is decoded.
#[derive(Debug, PartialEq, Eq)]
pub enum Deserializer {
    /// A message, by its decoding table.
    Struct(StructVisitor),
    /// An enumeration, by the names of its variants.
    Enumeration,
    /// A oneof, by its registry.
    Oneof(OneofRegistry),
}

/// What the declaration of a type expands to for decoding.
#[derive(Debug, PartialEq, Eq)]
pub struct Deserialize {
    pub deserializer: Deserializer,
    /// The keys that the type answers to as a oneof; none for another type.
    pub oneof_field_names: Vec<String>,
}

/// The first error in the declaration of a type that is to be decoded, if
/// there is one. The attributes must name the kind of the type; a struct
/// must be a message with named fields, an enum an enumeration or a oneof,
/// and a union is neither; and the directives of every field or variant
/// must give its type and its tag. `answers` holds, for every directive of
/// every field or variant, the answer to whether its literal is a path.
pub open spec fn deserialize_error(input: DeriveInput, answers: Seq<Seq<bool>>) -> Option<
    SyntaxError,
> {
    match DeriveMeta::spec_from_attributes(input.attrs@) {
        Err(e) => Some(e),
        Ok(meta) => match input.data {
            Data::Struct(d) => if meta.prost_type == ProstType::Message {
                struct_error(d, answers)
            } else {
                Some(SyntaxError { span: d.struct_token, kind: ErrorKind::StructNotMessage })
            },
            Data::Enum(d) => match meta.prost_type {
                ProstType::Enum => None,
                ProstType::Oneof => match gather(
                    typed_variants(d.variants@, answers),
                    d.variants@.len() as int,
                ) {
                    Err(e) => Some(e),
                    Ok(_) => None,
                },
                ProstType::Message => Some(
                    SyntaxError { span: d.enum_token, kind: ErrorKind::EnumNotEnumerationOrOneof },
                ),
            },
            Data::Union(d) => Some(
                SyntaxError { span: d.union_token, kind: ErrorKind::UnionDeserialize },
            ),
        },
    }
}

/// Whether `expanded` is what the declaration `input` expands to for
/// decoding, under the policy switches of `meta`.
pub open spec fn deserializes(
    expanded: Deserialize,
    meta: DeriveMeta,
    input: DeriveInput,
    answers: Seq<Seq<bool>>,
) -> bool {
    &&& crate::text::views(expanded.oneof_field_names@) == oneof_field_names(meta, input.data)
    &&& match input.data {
        Data::Struct(d) => d.fields matches Fields::Named(fields)
            && expanded.deserializer matches Deserializer::Struct(visitor) && visits(
            visitor,
            meta,
            input.ident,
            fields@,
            answers,
        ),
        Data::Enum(d) => match meta.prost_type {
            ProstType::Enum => expanded.deserializer == Deserializer::Enumeration,
            _ => expanded.deserializer matches Deserializer::Oneof(registry) && registers(
                registry,
                input.ident,
                d.variants@,
                answers,
            ),
        },
        Data::Union(_) => false,
    }
}

/// Whether `r` is what the declaration `input` expands to for decoding
/// under `answers`: the one error of the declaration, or its decoder.
pub open spec fn expands_to(
    input: DeriveInput,
    answers: Seq<Seq<bool>>,
    r: Result<Deserialize, Vec<SyntaxError>>,
) -> bool {
    match deserialize_error(input, answers) {
        Some(e) => r is Err && r->Err_0@ == seq![e],
        None => r is Ok && deserializes(
            r->Ok_0,
            DeriveMeta::spec_from_attributes(input.attrs@)->Ok_0,
            input,
            answers,
        ),
    }
}

/// Builds the decoder of a declared type, or gives the error of its
/// declaration. Whether the literal of an enumeration or of a oneof is a
/// path is asked of the parser; the result is that of the answers given.
pub fn expand_deserialize(input: &DeriveInput) -> (r: Result<Deserialize, Vec<SyntaxError>>)
    ensures
        exists|answers: Seq<Seq<bool>>| #[trigger] expands_to(*input, answers, r),
{
    let ghost none = Seq::<Seq<bool>>::empty();
    let mut context = Context::new();
    let derive_meta = match DeriveMeta::from_ast(&mut context, &input.attrs) {
        Ok(meta) => meta,
        Err(()) => {
            let r = collected(context);
            assert(expands_to(*input, none, r));
            return r;
        },
    };
    let ghost mut answers = none;
    let expanded = match &input.data {
        Data::Struct(d) => {
            if derive_meta.prost_type == ProstType::Message {
                let ghost before = context.errors();
                let built = expand_struct(&mut context, &derive_meta, &input.ident, d);
                proof {
                    answers = choose|answers: Seq<Seq<bool>>| #[trigger]
                        expands(
                            *d,
                            answers,
                            derive_meta,
                            input.ident,
                            built,
                            before,
                            context.errors(),
                        );
                }
                match built {
                    Ok(visitor) => Ok(Deserializer::Struct(visitor)),
                    Err(()) => Err(()),
                }
            } else {
                context.push_error_spanned_by(d.struct_token, ErrorKind::StructNotMessage);
                Err(())
            }
        },
        Data::Enum(d) => {
            if derive_meta.prost_type == ProstType::Enum || derive_meta.prost_type
                == ProstType::Oneof {
                let ghost before = context.errors();
                let built = expand_enum(&mut context, &derive_meta, &input.ident, d);
                proof {
                    answers = choose|answers: Seq<Seq<bool>>| #[trigger]
                        expands_enum(
                            d.variants@,
                            answers,
                            derive_meta,
                            input.ident,
                            built,
                            before,
                            context.errors(),
                        );
                }
                built
            } else {
                context.push_error_spanned_by(d.enum_token, ErrorKind::EnumNotEnumerationOrOneof);
                Err(())
            }
        },
        Data::Union(d) => {
            context.push_error_spanned_by(d.union_token, ErrorKind::UnionDeserialize);
            Err(())
        },
    };
    let deserializer = match expanded {
        Ok(deserializer) => deserializer,
        Err(()) => {
            let r = collected(context);
            assert(expands_to(*input, answers, r));
            return r;
        },
    };
    let oneof_field_names = expand_oneof_field_names_method(
        &derive_meta,
        &input.ident,
        &input.data,
    );
    let r = Ok(Deserialize { deserializer, oneof_field_names });
    assert(expands_to(*input, answers, r));
    r
}

} // verus!
