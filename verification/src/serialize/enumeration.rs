//! The encoding of an enumeration and of a oneof.

use vstd::prelude::*;
use crate::attr::{DeriveMeta, ProstType};
use crate::context::{Context, SyntaxError};
use crate::deserialize::enumeration::{
    expand_oneof,
    oneof_field_names,
    registered,
    registers,
    typed_variants,
};
use crate::gather::gather;
use crate::serialize::Serializer;
use crate::syntax::{Data, DataEnum, Ident, Variant};

verus! {

/// Whether `r` is what the enum with these variants expands to for
/// encoding under `answers`: an enumeration is written as the name of its
/// variant, a oneof by its registry, and an enum is no message.
pub open spec fn expands_enum(
    variants: Seq<Variant>,
    answers: Seq<Seq<bool>>,
    meta: DeriveMeta,
    ident: Ident,
    r: Result<Serializer, ()>,
    before: Seq<SyntaxError>,
    after: Seq<SyntaxError>,
) -> bool {
    match meta.prost_type {
        ProstType::Enum => r == Ok::<Serializer, ()>(Serializer::Enumeration) && after == before,
        ProstType::Message => r is Err && after == before,
        ProstType::Oneof => match gather(
            typed_variants(variants, answers),
            variants.len() as int,
        ) {
            Err(e) => r is Err && after == before.push(e),
            Ok(_) => {
                &&& after == before
                &&& r matches Ok(Serializer::Oneof(registry)) && registers(
                    registry,
                    ident,
                    variants,
                    answers,
                )
            },
        },
    }
}

/// Builds the encoder of the type `ident`, declared as the enum `data`: an
/// enumeration is written as the name of its variant, a oneof by its
/// registry. An enum is no message. The first error of the declaration is
/// recorded in `context`.
pub fn expand_enum(context: &mut Context, derive_meta: &DeriveMeta, ident: &Ident, data: &DataEnum) -> (r:
    Result<Serializer, ()>)
    ensures
        exists|answers: Seq<Seq<bool>>| #[trigger]
            expands_enum(
                data.variants@,
                answers,
                *derive_meta,
                *ident,
                r,
                old(context).errors(),
                final(context).errors(),
            ),
{
    let ghost before = context.errors();
    let ghost none = Seq::<Seq<bool>>::empty();
    match derive_meta.prost_type {
        ProstType::Enum => {
            let r = Ok(Serializer::Enumeration);
            assert(expands_enum(data.variants@, none, *derive_meta, *ident, r, before, before));
            r
        },
        ProstType::Oneof => {
            let registry = expand_oneof(context, derive_meta, ident, data);
            let ghost answers = choose|answers: Seq<Seq<bool>>| #[trigger]
                registered(data.variants@, answers, *ident, registry, before, context.errors());
            let r = match registry {
                Some(registry) => Ok(Serializer::Oneof(registry)),
                None => Err(()),
            };
            assert(expands_enum(
                data.variants@,
                answers,
                *derive_meta,
                *ident,
                r,
                before,
                context.errors(),
            ));
            r
        },
        _ => {
            assert(expands_enum(
                data.variants@,
                none,
                *derive_meta,
                *ident,
                Err(()),
                before,
                before,
            ));
            Err(())
        },
    }
}

/// Lists the key of every variant of a oneof, in the order of the
/// variants: the key under which the oneof is written when that variant is
/// active. Any other type has none.
pub fn expand_oneof_field_name_method(derive_meta: &DeriveMeta, ident: &Ident, data: &Data) -> (r:
    Vec<String>)
    ensures
        crate::text::views(r@) == oneof_field_names(*derive_meta, *data),
{
    crate::deserialize::enumeration::expand_oneof_field_names_method(derive_meta, ident, data)
}

} // verus!
