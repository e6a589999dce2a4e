//! Building the encoder of a declared type.

pub mod enumeration;
pub mod field;
pub mod structure;

use vstd::prelude::*;
use crate::attr::{DeriveMeta, ProstType};
use crate::catalog::OneofRegistry;
use crate::context::{Context, ErrorKind, SyntaxError};
use crate::deserialize::enumeration::{oneof_field_names, registers, typed_variants};
use crate::gather::gather;
use crate::serialize::enumeration::{expand_enum, expand_oneof_field_name_method, expands_enum};
use crate::serialize::structure::{expand_struct, expands, struct_serializers, StructSerializer};
use crate::syntax::{Data, DeriveInput};
use crate::util::collected;

verus! {

/// How a value of a declared type is encoded.
#[derive(Debug, PartialEq, Eq)]
pub enum Serializer {
    /// A message, by its encoding table.
    Struct(StructSerializer),
    /// An enumeration, as the name of its variant.
    Enumeration,
    /// A oneof, by its registry.
    Oneof(OneofRegistry),
}

/// What the declaration of a type expands to for encoding.
#[derive(Debug, PartialEq, Eq)]
pub struct Serialize {
    pub serializer: Serializer,
    /// The key of every variant, where the type is a oneof; none for another
    /// type.
    pub oneof_field_name: Vec<String>,
}

/// The first error in the declaration of a type that is to be encoded, if
/// there is one. The attributes must name the kind of the type; a struct
/// must be a message with named fields, an enum an enumeration or a oneof,
/// and a union is neither; the directives of every field or variant must
/// give its type and its tag; and a oneof has no cardinality. `answers`
/// holds, for every directive of every field or variant, the answer to
/// whether its literal is a path.
pub open spec fn serialize_error(input: DeriveInput, answers: Seq<Seq<bool>>) -> Option<
    SyntaxError,
> {
    match DeriveMeta::spec_from_attributes(input.attrs@) {
        Err(e) => Some(e),
        Ok(meta) => match input.data {
            Data::Struct(d) => if meta.prost_type == ProstType::Message {
                match struct_serializers(d, answers) {
                    Err(e) => Some(e),
                    Ok(_) => None,
                }
            } else {
                Some(SyntaxError { span: d.struct_token, kind: ErrorKind::StructNotMessage })
            },
            Data::Enum(d) => match meta.prost_type {
                ProstType::Enum => None,
                ProstType::Oneof => match gather(
                    typed_variants(d.variants@, answers),
                    d.variants@.len() as int,
                ) {
                    Err(e) => Some(e),
                    Ok(_) => None,
                },
                ProstType::Message => Some(
                    SyntaxError { span: d.enum_token, kind: ErrorKind::EnumNotEnumerationOrOneof },
                ),
            },
            Data::Union(d) => Some(
                SyntaxError { span: d.union_token, kind: ErrorKind::UnionSerialize },
            ),
        },
    }
}

/// Whether `expanded` is what the declaration `input` expands to for
/// encoding.
pub open spec fn serializes(
    expanded: Serialize,
    meta: DeriveMeta,
    input: DeriveInput,
    answers: Seq<Seq<bool>>,
) -> bool {
    &&& crate::text::views(expanded.oneof_field_name@) == oneof_field_names(meta, input.data)
    &&& match input.data {
        Data::Struct(d) => expanded.serializer matches Serializer::Struct(serializer)
            && serializer.name == input.ident.name && struct_serializers(d, answers) == Ok::<
            Seq<crate::serialize::field::FieldSerializer>,
            SyntaxError,
        >(serializer.fields@),
        Data::Enum(d) => match meta.prost_type {
            ProstType::Enum => expanded.serializer == Serializer::Enumeration,
            _ => expanded.serializer matches Serializer::Oneof(registry) && registers(
                registry,
                input.ident,
                d.variants@,
                answers,
            ),
        },
        Data::Union(_) => false,
    }
}

/// Whether `r` is what the declaration `input` expands to for encoding
/// under `answers`: the one error of the declaration, or its encoder.
pub open spec fn expands_to(
    input: DeriveInput,
    answers: Seq<Seq<bool>>,
    r: Result<Serialize, Vec<SyntaxError>>,
) -> bool {
    match serialize_error(input, answers) {
        Some(e) => r is Err && r->Err_0@ == seq![e],
        None => r is Ok && serializes(
            r->Ok_0,
            DeriveMeta::spec_from_attributes(input.attrs@)->Ok_0,
            input,
            answers,
        ),
    }
}

/// Builds the encoder of a declared type, or gives the error of its
/// declaration. Whether the literal of an enumeration or of a oneof is a
/// path is asked of the parser; the result is that of the answers given.
pub fn expand_serialize(input: &DeriveInput) -> (r: Result<Serialize, Vec<SyntaxError>>)
    ensures
        exists|answers: Seq<Seq<bool>>| #[trigger] expands_to(*input, answers, r),
{
    let ghost none = Seq::<Seq<bool>>::empty();
    let mut context = Context::new();
    let derive_meta = match DeriveMeta::from_ast(&mut context, &input.attrs) {
        Ok(meta) => meta,
        Err(()) => {
            let r = collected(context);
            assert(expands_to(*input, none, r));
            return r;
        },
    };
    let ghost mut answers = none;
    let expanded = match &input.data {
        Data::Struct(d) => {
            if derive_meta.prost_type == ProstType::Message {
                let ghost before = context.errors();
                let built = expand_struct(&mut context, &derive_meta, &input.ident, d);
                proof {
                    answers = choose|answers: Seq<Seq<bool>>| #[trigger]
                        expands(*d, answers, input.ident, built, before, context.errors());
                }
                match built {
                    Ok(serializer) => Ok(Serializer::Struct(serializer)),
                    Err(()) => Err(()),
                }
            } else {
                context.push_error_spanned_by(d.struct_token, ErrorKind::StructNotMessage);
                Err(())
            }
        },
        Data::Enum(d) => {
            if derive_meta.prost_type == ProstType::Enum || derive_meta.prost_type
                == ProstType::Oneof {
                let ghost before = context.errors();
                let built = expand_enum(&mut context, &derive_meta, &input.ident, d);
                proof {
                    answers = choose|answers: Seq<Seq<bool>>| #[trigger]
                        expands_enum(
                            d.variants@,
                            answers,
                            derive_meta,
                            input.ident,
                            built,
                            before,
                            context.errors(),
                        );
                }
                built
            } else {
                context.push_error_spanned_by(d.enum_token, ErrorKind::EnumNotEnumerationOrOneof);
                Err(())
            }
        },
        Data::Union(d) => {
            context.push_error_spanned_by(d.union_token, ErrorKind::UnionSerialize);
            Err(())
        },
    };
    let serializer = match expanded {
        Ok(serializer) => serializer,
        Err(()) => {
            let r = collected(context);
            assert(expands_to(*input, answers, r));
            return r;
        },
    };
    let oneof_field_name = expand_oneof_field_name_method(&derive_meta, &input.ident, &input.data);
    let r = Ok(Serialize { serializer, oneof_field_name });
    assert(expands_to(*input, answers, r));
    r
}

} // verus!
