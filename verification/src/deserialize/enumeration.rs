//! The decoding of an enumeration and of a oneof.

use vstd::prelude::*;
use crate::attr::{DeriveMeta, ProstAttr, ProstAttrView, ProstType};
use crate::catalog::{snake_case_of, to_snake_case, OneofRegistry, OneofVariant};
use crate::context::{Context, SyntaxError};
use crate::deserialize::Deserializer;
use crate::gather::{gather, lemma_gather_error_stays, lemma_gather_same};
use crate::syntax::{Data, DataEnum, Ident, Variant};

verus! {

/// What the directives of each variant say of it, under the answers for
/// each variant.
pub open spec fn typed_variants(variants: Seq<Variant>, answers: Seq<Seq<bool>>) -> Seq<
    Result<ProstAttrView, SyntaxError>,
> {
    Seq::new(
        variants.len(),
        |i: int|
            ProstAttr::spec_from_attributes(variants[i].attrs@, ProstAttr::answers_of(answers, i)),
    )
}

/// Whether `registry` lists the variants of the oneof `ident`: one entry
/// for every variant, in order, under the variant's name in snake case and
/// with the type that its directives give.
pub open spec fn registers(
    registry: OneofRegistry,
    ident: Ident,
    variants: Seq<Variant>,
    answers: Seq<Seq<bool>>,
) -> bool {
    &&& registry.name == ident.name
    &&& registry.variants@.len() == variants.len()
    &&& forall|i: int|
        0 <= i < variants.len() ==> {
            let entry = #[trigger] registry.variants@[i];
            &&& entry.ident == variants[i].ident.name
            &&& entry.name@ == snake_case_of(variants[i].ident.name@)
            &&& entry.message == variants[i].ty
            &&& ProstAttr::spec_from_attributes(
                variants[i].attrs@,
                ProstAttr::answers_of(answers, i),
            ) matches Ok(attr) && entry.ty == attr.ty
        }
}

/// A variant with what its directives say of it.
#[derive(Debug, PartialEq, Eq)]
pub struct TypedVariant {
    pub ident: String,
    /// The name of the type of the payload.
    pub message: String,
    pub attr: ProstAttr,
}

/// A oneof whose variants have been read, from which its registry is built.
#[derive(Debug, PartialEq, Eq)]
pub struct OneofDeserializer {
    pub meta: DeriveMeta,
    pub ident: String,
    pub variants: Vec<TypedVariant>,
}

impl OneofDeserializer {
    /// Whether this is the oneof `ident` with these variants, each with what
    /// its directives say of it.
    pub open spec fn describes(
        &self,
        meta: DeriveMeta,
        ident: Ident,
        variants: Seq<Variant>,
        answers: Seq<Seq<bool>>,
    ) -> bool {
        &&& self.meta == meta
        &&& self.ident == ident.name
        &&& self.variants@.len() == variants.len()
        &&& forall|i: int|
            0 <= i < variants.len() ==> (#[trigger] self.variants@[i]).ident
                == variants[i].ident.name && self.variants@[i].message == variants[i].ty
                && ProstAttr::spec_from_attributes(
                variants[i].attrs@,
                ProstAttr::answers_of(answers, i),
            ) == Ok::<ProstAttrView, SyntaxError>(self.variants@[i].attr@)
    }

    /// Whether `r` is what reading the variants gives under `answers`, and
    /// `after` the errors `before` with that of the reading, if it has one.
    pub open spec fn reads(
        variants: Seq<Variant>,
        answers: Seq<Seq<bool>>,
        meta: DeriveMeta,
        ident: Ident,
        r: Result<OneofDeserializer, ()>,
        before: Seq<SyntaxError>,
        after: Seq<SyntaxError>,
    ) -> bool {
        match gather(typed_variants(variants, answers), variants.len() as int) {
            Err(e) => r is Err && after == before.push(e),
            Ok(_) => r is Ok && r->Ok_0.describes(meta, ident, variants, answers) && after
                == before,
        }
    }

    /// Whether `registry` lists the variants of this oneof.
    pub open spec fn expands_to(&self, registry: OneofRegistry) -> bool {
        &&& registry.name == self.ident
        &&& registry.variants@.len() == self.variants@.len()
        &&& forall|i: int|
            0 <= i < self.variants@.len() ==> {
                let entry = #[trigger] registry.variants@[i];
                &&& entry.ident == self.variants@[i].ident
                &&& entry.name@ == snake_case_of(self.variants@[i].ident@)
                &&& entry.message == self.variants@[i].message
                &&& entry.ty == self.variants@[i].attr.ty
            }
    }

    /// Reads the directives of every variant of the oneof `ident`. The
    /// first variant whose directives are in error ends the reading, and its
    /// error is recorded in `context`.
    pub fn new(context: &mut Context, meta: &DeriveMeta, ident: &Ident, variants: &Vec<Variant>) -> (r:
        Result<OneofDeserializer, ()>)
        ensures
            exists|answers: Seq<Seq<bool>>| #[trigger]
                Self::reads(
                    variants@,
                    answers,
                    *meta,
                    *ident,
                    r,
                    old(context).errors(),
                    final(context).errors(),
                ),
    {
        let ghost mut answers: Seq<Seq<bool>> = Seq::empty();
        let ghost mut attrs: Seq<ProstAttrView> = Seq::empty();
        let mut read: Vec<TypedVariant> = Vec::new();
        let mut i: usize = 0;
        while i < variants.len()
            invariant
                i <= variants@.len(),
                answers.len() == i,
                context.errors() == old(context).errors(),
                gather(typed_variants(variants@, answers), i as int) == Ok::<
                    Seq<ProstAttrView>,
                    SyntaxError,
                >(attrs),
                read@.len() == i,
                forall|k: int|
                    0 <= k < i ==> (#[trigger] read@[k]).ident == variants@[k].ident.name
                        && read@[k].message == variants@[k].ty && ProstAttr::spec_from_attributes(
                        variants@[k].attrs@,
                        answers[k],
                    ) == Ok::<ProstAttrView, SyntaxError>(read@[k].attr@),
            decreases variants@.len() - i,
        {
            let variant = &variants[i];
            let ghost before = context.errors();
            let outcome = ProstAttr::from_ast(context, &variant.attrs);
            proof {
                let given = choose|given: Seq<bool>| #[trigger]
                    ProstAttr::records(variant.attrs@, given, outcome, before, context.errors());
                let earlier = answers;
                answers = answers.push(given);
                lemma_gather_same(
                    typed_variants(variants@, answers),
                    typed_variants(variants@, earlier),
                    i as int,
                );
                assert(ProstAttr::answers_of(answers, i as int) == given);
            }
            let attr = match outcome {
                Ok(attr) => attr,
                Err(()) => {
                    proof {
                        lemma_gather_error_stays(
                            typed_variants(variants@, answers),
                            i as int + 1,
                            variants@.len() as int,
                        );
                        assert(Self::reads(
                            variants@,
                            answers,
                            *meta,
                            *ident,
                            Err(()),
                            old(context).errors(),
                            context.errors(),
                        ));
                    }
                    return Err(());
                },
            };
            proof {
                attrs = attrs.push(attr@);
            }
            read.push(
                TypedVariant {
                    ident: variant.ident.name.clone(),
                    message: variant.ty.clone(),
                    attr,
                },
            );
            i += 1;
        }
        let built = OneofDeserializer { meta: *meta, ident: ident.name.clone(), variants: read };
        proof {
            assert forall|k: int| 0 <= k < variants@.len() implies ProstAttr::spec_from_attributes(
                variants@[k].attrs@,
                ProstAttr::answers_of(answers, k),
            ) == Ok::<ProstAttrView, SyntaxError>((#[trigger] built.variants@[k]).attr@) by {}
            assert(Self::reads(
                variants@,
                answers,
                *meta,
                *ident,
                Ok(built),
                old(context).errors(),
                context.errors(),
            ));
        }
        Ok(built)
    }

    /// The keys of the variants, in order: the name of each in snake case.
    pub fn expand_variant_deserializer_impl(&self) -> (r: Vec<String>)
        ensures
            r@.len() == self.variants@.len(),
            forall|i: int|
                0 <= i < self.variants@.len() ==> (#[trigger] r@[i])@ == snake_case_of(
                    self.variants@[i].ident@,
                ),
    {
        let mut names: Vec<String> = Vec::new();
        let mut i: usize = 0;
        while i < self.variants.len()
            invariant
                i <= self.variants@.len(),
                names@.len() == i,
                forall|k: int|
                    0 <= k < i ==> (#[trigger] names@[k])@ == snake_case_of(
                        self.variants@[k].ident@,
                    ),
            decreases self.variants@.len() - i,
        {
            names.push(to_snake_case(&self.variants[i].ident));
            i += 1;
        }
        names
    }

    /// Builds the registry of the oneof: every variant under its key, with
    /// the type of its payload.
    pub fn expand_visitor_impl(&self) -> (r: Result<OneofRegistry, ()>)
        ensures
            r is Ok,
            self.expands_to(r->Ok_0),
    {
        let mut names = self.expand_variant_deserializer_impl();
        let ghost keys = names@;
        let mut entries: Vec<OneofVariant> = Vec::new();
        let mut i: usize = 0;
        assert(names@ =~= keys.subrange(0, keys.len() as int));
        while i < self.variants.len()
            invariant
                i <= self.variants@.len(),
                keys.len() == self.variants@.len(),
                names@ == keys.subrange(i as int, keys.len() as int),
                forall|k: int|
                    0 <= k < self.variants@.len() ==> (#[trigger] keys[k])@ == snake_case_of(
                        self.variants@[k].ident@,
                    ),
                entries@.len() == i,
                forall|k: int|
                    0 <= k < i ==> {
                        let entry = #[trigger] entries@[k];
                        &&& entry.ident == self.variants@[k].ident
                        &&& entry.name@ == snake_case_of(self.variants@[k].ident@)
                        &&& entry.message == self.variants@[k].message
                        &&& entry.ty == self.variants@[k].attr.ty
                    },
            decreases self.variants@.len() - i,
        {
            let variant = &self.variants[i];
            let name = names.remove(0);
            assert(name == keys[i as int]);
            assert(names@ =~= keys.subrange(i as int + 1, keys.len() as int));
            entries.push(
                OneofVariant {
                    ident: variant.ident.clone(),
                    name,
                    ty: variant.attr.ty.clone(),
                    message: variant.message.clone(),
                },
            );
            i += 1;
        }
        Ok(OneofRegistry { name: self.ident.clone(), variants: entries })
    }

    /// Builds the registry of the oneof.
    pub fn expand(&self) -> (r: Result<OneofRegistry, ()>)
        ensures
            r is Ok,
            self.expands_to(r->Ok_0),
    {
        self.expand_visitor_impl()
    }
}

/// Whether `registry` is what the variants of a oneof are read as under
/// `answers`, and `after` the errors `before` with that of the reading, if
/// it has one.
pub open spec fn registered(
    variants: Seq<Variant>,
    answers: Seq<Seq<bool>>,
    ident: Ident,
    registry: Option<OneofRegistry>,
    before: Seq<SyntaxError>,
    after: Seq<SyntaxError>,
) -> bool {
    match gather(typed_variants(variants, answers), variants.len() as int) {
        Err(e) => registry is None && after == before.push(e),
        Ok(_) => {
            &&& after == before
            &&& registry matches Some(found) && registers(found, ident, variants, answers)
        },
    }
}

/// Reads the variants of the oneof `ident` into its registry. The first
/// variant whose directives are in error ends the reading, and its error is
/// recorded in `context`.
pub fn expand_oneof(context: &mut Context, meta: &DeriveMeta, ident: &Ident, d: &DataEnum) -> (r:
    Option<OneofRegistry>)
    ensures
        exists|answers: Seq<Seq<bool>>| #[trigger]
            registered(d.variants@, answers, *ident, r, old(context).errors(), final(context).errors()),
{
    let ghost before = context.errors();
    let built = OneofDeserializer::new(context, meta, ident, &d.variants);
    let ghost answers = choose|answers: Seq<Seq<bool>>| #[trigger]
        OneofDeserializer::reads(
            d.variants@,
            answers,
            *meta,
            *ident,
            built,
            before,
            context.errors(),
        );
    let deserializer = match built {
        Ok(deserializer) => deserializer,
        Err(()) => {
            assert(registered(d.variants@, answers, *ident, None, before, context.errors()));
            return None;
        },
    };
    match deserializer.expand() {
        Ok(registry) => {
            proof {
                assert forall|i: int| 0 <= i < d.variants@.len() implies {
                    let entry = #[trigger] registry.variants@[i];
                    &&& entry.ident == d.variants@[i].ident.name
                    &&& entry.name@ == snake_case_of(d.variants@[i].ident.name@)
                    &&& entry.message == d.variants@[i].ty
                    &&& ProstAttr::spec_from_attributes(
                        d.variants@[i].attrs@,
                        ProstAttr::answers_of(answers, i),
                    ) matches Ok(attr) && entry.ty == attr.ty
                } by {
                    assert(deserializer.variants@[i].ident == d.variants@[i].ident.name);
                }
                assert(registered(
                    d.variants@,
                    answers,
                    *ident,
                    Some(registry),
                    before,
                    context.errors(),
                ));
            }
            Some(registry)
        },
        Err(()) => {
            assert(false);
            None
        },
    }
}

/// Whether `r` is what the enum with these variants expands to for
/// decoding under `answers`: an enumeration is read by the names of its
/// variants, a oneof by its registry, and an enum is no message.
pub open spec fn expands_enum(
    variants: Seq<Variant>,
    answers: Seq<Seq<bool>>,
    meta: DeriveMeta,
    ident: Ident,
    r: Result<Deserializer, ()>,
    before: Seq<SyntaxError>,
    after: Seq<SyntaxError>,
) -> bool {
    match meta.prost_type {
        ProstType::Enum => r == Ok::<Deserializer, ()>(Deserializer::Enumeration) && after
            == before,
        ProstType::Message => r is Err && after == before,
        ProstType::Oneof => match gather(
            typed_variants(variants, answers),
            variants.len() as int,
        ) {
            Err(e) => r is Err && after == before.push(e),
            Ok(_) => {
                &&& after == before
                &&& r matches Ok(Deserializer::Oneof(registry)) && registers(
                    registry,
                    ident,
                    variants,
                    answers,
                )
            },
        },
    }
}

/// Builds the decoder of the type `ident`, declared as the enum `d`: an
/// enumeration is read by the names of its variants, a oneof by its
/// registry. An enum is no message. The first error of the declaration is
/// recorded in `context`.
pub fn expand_enum(context: &mut Context, meta: &DeriveMeta, ident: &Ident, d: &DataEnum) -> (r:
    Result<Deserializer, ()>)
    ensures
        exists|answers: Seq<Seq<bool>>| #[trigger]
            expands_enum(
                d.variants@,
                answers,
                *meta,
                *ident,
                r,
                old(context).errors(),
                final(context).errors(),
            ),
{
    let ghost before = context.errors();
    match meta.prost_type {
        ProstType::Enum => {
            assert(expands_enum(
                d.variants@,
                Seq::<Seq<bool>>::empty(),
                *meta,
                *ident,
                Ok(Deserializer::Enumeration),
                before,
                before,
            ));
            Ok(Deserializer::Enumeration)
        },
        ProstType::Oneof => {
            let registry = expand_oneof(context, meta, ident, d);
            let ghost answers = choose|answers: Seq<Seq<bool>>| #[trigger]
                registered(d.variants@, answers, *ident, registry, before, context.errors());
            match registry {
                Some(registry) => {
                    assert(expands_enum(
                        d.variants@,
                        answers,
                        *meta,
                        *ident,
                        Ok(Deserializer::Oneof(registry)),
                        before,
                        context.errors(),
                    ));
                    Ok(Deserializer::Oneof(registry))
                },
                None => {
                    assert(expands_enum(
                        d.variants@,
                        answers,
                        *meta,
                        *ident,
                        Err(()),
                        before,
                        context.errors(),
                    ));
                    Err(())
                },
            }
        },
        _ => {
            assert(expands_enum(
                d.variants@,
                Seq::<Seq<bool>>::empty(),
                *meta,
                *ident,
                Err(()),
                before,
                before,
            ));
            Err(())
        },
    }
}

/// The keys of the variants of `data`, in order, where the type is a oneof
/// declared as an enum; no keys for any other type.
pub open spec fn oneof_field_names(derive_meta: DeriveMeta, data: Data) -> Seq<Seq<char>> {
    match data {
        Data::Enum(d) => if derive_meta.prost_type == ProstType::Oneof {
            Seq::new(d.variants@.len(), |i: int| snake_case_of(d.variants@[i].ident.name@))
        } else {
            Seq::empty()
        },
        _ => Seq::empty(),
    }
}

/// Lists the keys that a oneof answers to: the names of its variants in
/// snake case. Any other type answers to none.
pub fn expand_oneof_field_names_method(derive_meta: &DeriveMeta, ident: &Ident, data: &Data) -> (r:
    Vec<String>)
    ensures
        crate::text::views(r@) == oneof_field_names(*derive_meta, *data),
{
    let mut names: Vec<String> = Vec::new();
    if let Data::Enum(d) = data {
        if derive_meta.prost_type == ProstType::Oneof {
            let mut i: usize = 0;
            while i < d.variants.len()
                invariant
                    i <= d.variants@.len(),
                    names@.len() == i,
                    forall|k: int|
                        0 <= k < i ==> (#[trigger] names@[k])@ == snake_case_of(
                            d.variants@[k].ident.name@,
                        ),
                decreases d.variants@.len() - i,
            {
                names.push(to_snake_case(&d.variants[i].ident.name));
                i += 1;
            }
        }
    }
    assert(crate::text::views(names@) =~= oneof_field_names(*derive_meta, *data));
    names
}

} // verus!
