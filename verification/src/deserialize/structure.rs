//! The decoding table of a message.

use vstd::prelude::*;
use crate::attr::{DeriveMeta, FieldModifier, ProstAttr, ProstAttrView, ProtobufType};
use crate::catalog::Named;
use crate::context::{Context, ErrorKind, SyntaxError};
use crate::deserialize::field::{
    oneof_with_modifier,
    FieldVisitorTokenGenerator,
    FieldVisitorTokenStream,
};
use crate::gather::{gather, lemma_gather_error_stays, lemma_gather_ok, lemma_gather_same};
use crate::syntax::{DataStruct, Field, Fields, Ident};

verus! {

/// The keys that a field answers to: its own name, or, for a oneof, the
/// names of the variants of the oneof at the path `ty`.
#[derive(Debug, PartialEq, Eq)]
pub struct SingleFieldVariant {
    pub ident: String,
    pub ty: Option<String>,
}

/// A field in the decoding table of a message.
#[derive(Debug, PartialEq, Eq)]
pub struct FieldVisitor {
    /// The name that errors cite the field by.
    pub name: String,
    pub variant: SingleFieldVariant,
    pub tokens: FieldVisitorTokenStream,
}

/// The decoding table of a message.
#[derive(Debug, PartialEq, Eq)]
pub struct StructVisitor {
    pub name: String,
    /// Whether a key that no field answers to is skipped.
    pub ignore_unknown_fields: bool,
    pub fields: Vec<FieldVisitor>,
}

impl Named for StructVisitor {
    open spec fn spec_name(&self) -> Seq<char> {
        self.name@
    }

    fn name(&self) -> (r: &String) {
        &self.name
    }
}

impl SingleFieldVariant {
    /// The keys of a field named `ident`: the names of the variants of the
    /// oneof at `ty`, or, without one, its own name.
    pub fn new(ident: String, ty: Option<String>) -> (r: SingleFieldVariant)
        ensures
            r == (SingleFieldVariant { ident, ty }),
    {
        SingleFieldVariant { ident, ty }
    }

    /// The name of the field.
    pub fn ident(&self) -> (r: &String)
        ensures
            *r == self.ident,
    {
        &self.ident
    }
}

/// The entry of the decoding table for a field named `name` that holds the
/// type `message`, with the protobuf type `ty` and the cardinality
/// `modifier`, under the policy switches of `meta`.
pub open spec fn field_visitor_of(
    meta: DeriveMeta,
    name: String,
    message: String,
    ty: ProtobufType,
    modifier: FieldModifier,
) -> FieldVisitor {
    FieldVisitor {
        name,
        variant: SingleFieldVariant {
            ident: name,
            ty: match ty {
                ProtobufType::OneOf(path) => Some(path),
                _ => None,
            },
        },
        tokens: (FieldVisitorTokenGenerator { meta }).spec_expand(ty, modifier, message),
    }
}

/// What the directives of a field say of it, or the error of its
/// declaration: that of its directives, else that it has no name. `answers`
/// holds, for every directive, the answer to whether its literal is a path.
pub open spec fn typed(field: Field, answers: Seq<bool>) -> Result<ProstAttrView, SyntaxError> {
    match ProstAttr::spec_from_attributes(field.attrs@, answers) {
        Err(e) => Err(e),
        Ok(attr) => if field.ident is None {
            Err(SyntaxError { span: field.span, kind: ErrorKind::FieldWithoutName })
        } else {
            Ok(attr)
        },
    }
}

/// What the directives of each field say of it, under the answers for each
/// field.
pub open spec fn typed_fields(fields: Seq<Field>, answers: Seq<Seq<bool>>) -> Seq<
    Result<ProstAttrView, SyntaxError>,
> {
    Seq::new(fields.len(), |i: int| typed(fields[i], ProstAttr::answers_of(answers, i)))
}

/// Whether one of the fields is a oneof with a cardinality.
pub open spec fn any_refused(attrs: Seq<ProstAttrView>) -> bool {
    exists|i: int|
        0 <= i < attrs.len() && FieldVisitorTokenGenerator::refused(
            (#[trigger] attrs[i]).ty,
            attrs[i].modifier,
        )
}

/// The first error in the declaration of a message with these fields, if
/// there is one: that of the first field that has one, else that of a oneof
/// with a cardinality.
pub open spec fn fields_error(fields: Seq<Field>, answers: Seq<Seq<bool>>) -> Option<SyntaxError> {
    match gather(typed_fields(fields, answers), fields.len() as int) {
        Err(e) => Some(e),
        Ok(attrs) => if any_refused(attrs) {
            Some(oneof_with_modifier())
        } else {
            None
        },
    }
}

/// Whether `visitor` is the decoding table of the message `ident` with
/// these fields, under the policy switches of `meta`: one entry for every
/// field, in order.
pub open spec fn visits(
    visitor: StructVisitor,
    meta: DeriveMeta,
    ident: Ident,
    fields: Seq<Field>,
    answers: Seq<Seq<bool>>,
) -> bool {
    &&& visitor.name == ident.name
    &&& visitor.ignore_unknown_fields == meta.ignore_unknown_fields
    &&& visitor.fields@.len() == fields.len()
    &&& forall|i: int|
        0 <= i < fields.len() ==> {
            let attr = typed(fields[i], ProstAttr::answers_of(answers, i));
            &&& fields[i].ident is Some
            &&& attr is Ok
            &&& #[trigger] visitor.fields@[i] == field_visitor_of(
                meta,
                fields[i].ident->0.name,
                fields[i].ty,
                attr->Ok_0.ty,
                attr->Ok_0.modifier,
            )
        }
}

/// A field with what its directives say of it.
#[derive(Debug, PartialEq, Eq)]
pub struct TypedField {
    pub ident: String,
    /// The name of the type that the field holds.
    pub message: String,
    pub attr: ProstAttr,
}

/// A message whose fields have been read, from which its decoding table is
/// built.
#[derive(Debug, PartialEq, Eq)]
pub struct NamedStructDeserializer {
    pub meta: DeriveMeta,
    pub ident: String,
    pub fields: Vec<TypedField>,
}

impl NamedStructDeserializer {
    /// Whether this is the message `ident` with these fields, each with what
    /// its directives say of it.
    pub open spec fn describes(
        &self,
        meta: DeriveMeta,
        ident: Ident,
        fields: Seq<Field>,
        answers: Seq<Seq<bool>>,
    ) -> bool {
        &&& self.meta == meta
        &&& self.ident == ident.name
        &&& self.fields@.len() == fields.len()
        &&& forall|i: int|
            0 <= i < fields.len() ==> fields[i].ident is Some && (#[trigger] self.fields@[i]).ident
                == fields[i].ident->0.name && self.fields@[i].message == fields[i].ty && typed(
                fields[i],
                ProstAttr::answers_of(answers, i),
            ) == Ok::<ProstAttrView, SyntaxError>(self.fields@[i].attr@)
    }

    /// Whether `r` is what reading the fields gives under `answers`, and
    /// `after` the errors `before` with that of the reading, if it has one.
    pub open spec fn reads(
        fields: Seq<Field>,
        answers: Seq<Seq<bool>>,
        meta: DeriveMeta,
        ident: Ident,
        r: Result<NamedStructDeserializer, ()>,
        before: Seq<SyntaxError>,
        after: Seq<SyntaxError>,
    ) -> bool {
        match gather(typed_fields(fields, answers), fields.len() as int) {
            Err(e) => r is Err && after == before.push(e),
            Ok(_) => r is Ok && r->Ok_0.describes(meta, ident, fields, answers) && after == before,
        }
    }

    /// Whether no field is a oneof with a cardinality.
    pub open spec fn acceptable(&self) -> bool {
        forall|i: int|
            0 <= i < self.fields@.len() ==> !FieldVisitorTokenGenerator::refused(
                (#[trigger] self.fields@[i]).attr.ty,
                self.fields@[i].attr.modifier,
            )
    }

    /// Whether `visitor` is the decoding table of this message.
    pub open spec fn expands_to(&self, visitor: StructVisitor) -> bool {
        &&& visitor.name == self.ident
        &&& visitor.ignore_unknown_fields == self.meta.ignore_unknown_fields
        &&& visitor.fields@.len() == self.fields@.len()
        &&& forall|i: int|
            0 <= i < self.fields@.len() ==> #[trigger] visitor.fields@[i] == field_visitor_of(
                self.meta,
                self.fields@[i].ident,
                self.fields@[i].message,
                self.fields@[i].attr.ty,
                self.fields@[i].attr.modifier,
            )
    }

    /// Reads the directives of every field of the message `ident`. The
    /// first field whose declaration is in error ends the reading, and its
    /// error is recorded in `context`.
    pub fn new(context: &mut Context, meta: &DeriveMeta, ident: &Ident, fields: &Vec<Field>) -> (r:
        Result<NamedStructDeserializer, ()>)
        ensures
            exists|answers: Seq<Seq<bool>>| #[trigger]
                Self::reads(
                    fields@,
                    answers,
                    *meta,
                    *ident,
                    r,
                    old(context).errors(),
                    final(context).errors(),
                ),
    {
        let ghost mut answers: Seq<Seq<bool>> = Seq::empty();
        let ghost mut attrs: Seq<ProstAttrView> = Seq::empty();
        let mut read: Vec<TypedField> = Vec::new();
        let mut i: usize = 0;
        while i < fields.len()
            invariant
                i <= fields@.len(),
                answers.len() == i,
                context.errors() == old(context).errors(),
                gather(typed_fields(fields@, answers), i as int) == Ok::<
                    Seq<ProstAttrView>,
                    SyntaxError,
                >(attrs),
                read@.len() == i,
                forall|k: int|
                    0 <= k < i ==> fields@[k].ident is Some && (#[trigger] read@[k]).ident
                        == fields@[k].ident->0.name && read@[k].message == fields@[k].ty
                        && typed(fields@[k], answers[k]) == Ok::<ProstAttrView, SyntaxError>(
                        read@[k].attr@,
                    ),
            decreases fields@.len() - i,
        {
            let field = &fields[i];
            let ghost before = context.errors();
            let outcome = ProstAttr::from_ast(context, &field.attrs);
            proof {
                let given = choose|given: Seq<bool>| #[trigger]
                    ProstAttr::records(field.attrs@, given, outcome, before, context.errors());
                let earlier = answers;
                answers = answers.push(given);
                lemma_gather_same(
                    typed_fields(fields@, answers),
                    typed_fields(fields@, earlier),
                    i as int,
                );
                assert(ProstAttr::answers_of(answers, i as int) == given);
            }
            let attr = match outcome {
                Ok(attr) => attr,
                Err(()) => {
                    proof {
                        lemma_gather_error_stays(
                            typed_fields(fields@, answers),
                            i as int + 1,
                            fields@.len() as int,
                        );
                        assert(Self::reads(
                            fields@,
                            answers,
                            *meta,
                            *ident,
                            Err(()),
                            old(context).errors(),
                            context.errors(),
                        ));
                    }
                    return Err(());
                },
            };
            let name = match &field.ident {
                Some(name) => name,
                None => {
                    context.push_error_spanned_by(field.span, ErrorKind::FieldWithoutName);
                    proof {
                        lemma_gather_error_stays(
                            typed_fields(fields@, answers),
                            i as int + 1,
                            fields@.len() as int,
                        );
                        assert(Self::reads(
                            fields@,
                            answers,
                            *meta,
                            *ident,
                            Err(()),
                            old(context).errors(),
                            context.errors(),
                        ));
                    }
                    return Err(());
                },
            };
            proof {
                attrs = attrs.push(attr@);
            }
            read.push(
                TypedField { ident: name.name.clone(), message: field.ty.clone(), attr },
            );
            i += 1;
        }
        let built = NamedStructDeserializer {
            meta: *meta,
            ident: ident.name.clone(),
            fields: read,
        };
        proof {
            assert forall|k: int| 0 <= k < fields@.len() implies typed(
                fields@[k],
                ProstAttr::answers_of(answers, k),
            ) == Ok::<ProstAttrView, SyntaxError>((#[trigger] built.fields@[k]).attr@) by {}
            assert(Self::reads(
                fields@,
                answers,
                *meta,
                *ident,
                Ok(built),
                old(context).errors(),
                context.errors(),
            ));
        }
        Ok(built)
    }

    /// The keys that each field answers to, in the order of the fields: a
    /// oneof answers to the names of its variants, any other field to its
    /// own name.
    pub fn expand_field_deserializer_impl(&self) -> (r: Vec<SingleFieldVariant>)
        ensures
            r@.len() == self.fields@.len(),
            forall|i: int|
                0 <= i < self.fields@.len() ==> #[trigger] r@[i] == field_visitor_of(
                    self.meta,
                    self.fields@[i].ident,
                    self.fields@[i].message,
                    self.fields@[i].attr.ty,
                    self.fields@[i].attr.modifier,
                ).variant,
    {
        let mut variants: Vec<SingleFieldVariant> = Vec::new();
        let mut i: usize = 0;
        while i < self.fields.len()
            invariant
                i <= self.fields@.len(),
                variants@.len() == i,
                forall|k: int|
                    0 <= k < i ==> #[trigger] variants@[k] == field_visitor_of(
                        self.meta,
                        self.fields@[k].ident,
                        self.fields@[k].message,
                        self.fields@[k].attr.ty,
                        self.fields@[k].attr.modifier,
                    ).variant,
            decreases self.fields@.len() - i,
        {
            let field = &self.fields[i];
            let ty = match &field.attr.ty {
                ProtobufType::OneOf(path) => Some(path.clone()),
                _ => None,
            };
            variants.push(SingleFieldVariant::new(field.ident.clone(), ty));
            i += 1;
        }
        variants
    }

    /// Builds the decoding table of the message. A oneof with a cardinality
    /// is a declaration error, recorded in `context`.
    pub fn expand_visitor_impl(&self, context: &mut Context) -> (r: Result<StructVisitor, ()>)
        ensures
            self.acceptable() ==> r is Ok && self.expands_to(r->Ok_0) && final(context).errors()
                == old(context).errors(),
            !self.acceptable() ==> r is Err && final(context).errors() == old(
                context
            ).errors().push(oneof_with_modifier()),
    {
        let mut field_variants = self.expand_field_deserializer_impl();
        let generator = FieldVisitorTokenGenerator::new(&self.meta);
        let ghost variants = field_variants@;
        let mut fields: Vec<FieldVisitor> = Vec::new();
        let mut i: usize = 0;
        assert(field_variants@ =~= variants.subrange(0, variants.len() as int));
        while i < self.fields.len()
            invariant
                i <= self.fields@.len(),
                generator.meta == self.meta,
                context.errors() == old(context).errors(),
                variants.len() == self.fields@.len(),
                field_variants@ == variants.subrange(i as int, variants.len() as int),
                forall|k: int|
                    0 <= k < self.fields@.len() ==> #[trigger] variants[k] == field_visitor_of(
                        self.meta,
                        self.fields@[k].ident,
                        self.fields@[k].message,
                        self.fields@[k].attr.ty,
                        self.fields@[k].attr.modifier,
                    ).variant,
                fields@.len() == i,
                forall|k: int|
                    0 <= k < i ==> !FieldVisitorTokenGenerator::refused(
                        (#[trigger] self.fields@[k]).attr.ty,
                        self.fields@[k].attr.modifier,
                    ),
                forall|k: int|
                    0 <= k < i ==> #[trigger] fields@[k] == field_visitor_of(
                        self.meta,
                        self.fields@[k].ident,
                        self.fields@[k].message,
                        self.fields@[k].attr.ty,
                        self.fields@[k].attr.modifier,
                    ),
            decreases self.fields@.len() - i,
        {
            let field = &self.fields[i];
            let variant = field_variants.remove(0);
            assert(variant == variants[i as int]);
            assert(field_variants@ =~= variants.subrange(i as int + 1, variants.len() as int));
            let tokens = match generator.expand(context, &field.attr, &field.message) {
                Ok(tokens) => tokens,
                Err(()) => {
                    return Err(());
                },
            };
            fields.push(FieldVisitor { name: field.ident.clone(), variant, tokens });
            i += 1;
        }
        Ok(
            StructVisitor {
                name: self.ident.clone(),
                ignore_unknown_fields: self.meta.ignore_unknown_fields,
                fields,
            },
        )
    }

    /// Builds the decoding table of the message.
    pub fn expand(&self, context: &mut Context) -> (r: Result<StructVisitor, ()>)
        ensures
            self.acceptable() ==> r is Ok && self.expands_to(r->Ok_0) && final(context).errors()
                == old(context).errors(),
            !self.acceptable() ==> r is Err && final(context).errors() == old(
                context
            ).errors().push(oneof_with_modifier()),
    {
        self.expand_visitor_impl(context)
    }
}

/// The first error in the declaration of a struct as a message, if there is
/// one: only a struct with named fields can be a message.
pub open spec fn struct_error(data: DataStruct, answers: Seq<Seq<bool>>) -> Option<SyntaxError> {
    match data.fields {
        Fields::Named(fields) => fields_error(fields@, answers),
        Fields::Unnamed(span) => Some(
            SyntaxError { span, kind: ErrorKind::TupleStructDeserialize },
        ),
        Fields::Unit(span) => Some(SyntaxError { span, kind: ErrorKind::UnitStructDeserialize }),
    }
}

/// Whether `r` is what the struct `data` expands to under `answers`, and
/// `after` the errors `before` with the first error of the declaration, if
/// it has one.
pub open spec fn expands(
    data: DataStruct,
    answers: Seq<Seq<bool>>,
    meta: DeriveMeta,
    ident: Ident,
    r: Result<StructVisitor, ()>,
    before: Seq<SyntaxError>,
    after: Seq<SyntaxError>,
) -> bool {
    match struct_error(data, answers) {
        Some(e) => r is Err && after == before.push(e),
        None => {
            &&& r is Ok
            &&& after == before
            &&& data.fields matches Fields::Named(fields) && visits(
                r->Ok_0,
                meta,
                ident,
                fields@,
                answers,
            )
        },
    }
}

/// Builds the decoding table of the message `ident`, declared as the
/// struct `data`, under the policy switches of `meta`. The first error of
/// the declaration is recorded in `context`. Whether a literal is a path is
/// asked of the parser; the result is that of the answers given.
pub fn expand_struct(context: &mut Context, meta: &DeriveMeta, ident: &Ident, data: &DataStruct) -> (r:
    Result<StructVisitor, ()>)
    ensures
        exists|answers: Seq<Seq<bool>>| #[trigger]
            expands(
                *data,
                answers,
                *meta,
                *ident,
                r,
                old(context).errors(),
                final(context).errors(),
            ),
{
    match &data.fields {
        Fields::Named(f) => {
            let ghost before = context.errors();
            let built = NamedStructDeserializer::new(context, meta, ident, f);
            let ghost answers = choose|answers: Seq<Seq<bool>>| #[trigger]
                NamedStructDeserializer::reads(
                    f@,
                    answers,
                    *meta,
                    *ident,
                    built,
                    before,
                    context.errors(),
                );
            let deserializer = match built {
                Ok(deserializer) => deserializer,
                Err(()) => {
                    assert(expands(*data, answers, *meta, *ident, Err(()), before, context.errors()));
                    return Err(());
                },
            };
            proof {
                let results = typed_fields(f@, answers);
                lemma_gather_ok(results, f@.len() as int);
                let attrs = gather(results, f@.len() as int)->Ok_0;
                if any_refused(attrs) {
                    let i = choose|i: int|
                        0 <= i < attrs.len() && FieldVisitorTokenGenerator::refused(
                            (#[trigger] attrs[i]).ty,
                            attrs[i].modifier,
                        );
                    assert(results[i] == typed(f@[i], ProstAttr::answers_of(answers, i)));
                    assert(deserializer.fields@[i].attr@ == attrs[i]);
                    assert(!deserializer.acceptable());
                } else {
                    assert forall|i: int|
                        0 <= i < deserializer.fields@.len() implies !FieldVisitorTokenGenerator::refused(
                        (#[trigger] deserializer.fields@[i]).attr.ty,
                        deserializer.fields@[i].attr.modifier,
                    ) by {
                        assert(results[i] == typed(f@[i], ProstAttr::answers_of(answers, i)));
                        assert(deserializer.fields@[i].attr@ == attrs[i]);
                    }
                }
            }
            let visitor = match deserializer.expand(context) {
                Ok(visitor) => visitor,
                Err(()) => {
                    assert(expands(*data, answers, *meta, *ident, Err(()), before, context.errors()));
                    return Err(());
                },
            };
            proof {
                assert forall|i: int| 0 <= i < f@.len() implies {
                    let attr = typed(f@[i], ProstAttr::answers_of(answers, i));
                    &&& f@[i].ident is Some
                    &&& attr is Ok
                    &&& #[trigger] visitor.fields@[i] == field_visitor_of(
                        *meta,
                        f@[i].ident->0.name,
                        f@[i].ty,
                        attr->Ok_0.ty,
                        attr->Ok_0.modifier,
                    )
                } by {
                    assert(deserializer.fields@[i].attr@ == typed(
                        f@[i],
                        ProstAttr::answers_of(answers, i),
                    )->Ok_0);
                }
                assert(expands(*data, answers, *meta, *ident, Ok(visitor), before, context.errors()));
            }
            Ok(visitor)
        },
        Fields::Unnamed(span) => {
            let ghost before = context.errors();
            context.push_error_spanned_by(*span, ErrorKind::TupleStructDeserialize);
            assert(expands(
                *data,
                Seq::<Seq<bool>>::empty(),
                *meta,
                *ident,
                Err(()),
                before,
                context.errors(),
            ));
            Err(())
        },
        Fields::Unit(span) => {
            let ghost before = context.errors();
            context.push_error_spanned_by(*span, ErrorKind::UnitStructDeserialize);
            assert(expands(
                *data,
                Seq::<Seq<bool>>::empty(),
                *meta,
                *ident,
                Err(()),
                before,
                context.errors(),
            ));
            Err(())
        },
    }
}

} // verus!
