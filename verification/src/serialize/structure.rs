//! The encoding table of a message.

use vstd::prelude::*;
use crate::attr::{DeriveMeta, ProstAttr};
use crate::catalog::Named;
use crate::context::{Context, ErrorKind, SyntaxError};
use crate::gather::{gather, lemma_gather_error_stays, lemma_gather_same};
use crate::serialize::field::{field_serializer, serialize_field, serialized, FieldSerializer};
use crate::syntax::{DataStruct, Field, Fields, Ident};

verus! {

/// The encoding table of a message.
#[derive(Debug, PartialEq, Eq)]
pub struct StructSerializer {
    pub name: String,
    pub fields: Vec<FieldSerializer>,
}

impl Named for StructSerializer {
    open spec fn spec_name(&self) -> Seq<char> {
        self.name@
    }

    fn name(&self) -> (r: &String) {
        &self.name
    }
}

/// How each field is written, under the answers for each field.
pub open spec fn field_serializers(fields: Seq<Field>, answers: Seq<Seq<bool>>) -> Seq<
    Result<FieldSerializer, SyntaxError>,
> {
    Seq::new(
        fields.len(),
        |i: int| field_serializer(fields[i], ProstAttr::answers_of(answers, i)),
    )
}

/// The encoding strategies of the fields of a struct, in order, or the
/// first error of its declaration: only a struct with named fields can be
/// written.
pub open spec fn struct_serializers(data: DataStruct, answers: Seq<Seq<bool>>) -> Result<
    Seq<FieldSerializer>,
    SyntaxError,
> {
    match data.fields {
        Fields::Named(fields) => gather(
            field_serializers(fields@, answers),
            fields@.len() as int,
        ),
        Fields::Unnamed(span) => Err(SyntaxError { span, kind: ErrorKind::TupleStructSerialize }),
        Fields::Unit(span) => Err(SyntaxError { span, kind: ErrorKind::UnitStructSerialize }),
    }
}

/// Whether `r` is what the struct `data` expands to for encoding under
/// `answers`, and `after` the errors `before` with the first error of the
/// declaration, if it has one.
pub open spec fn expands(
    data: DataStruct,
    answers: Seq<Seq<bool>>,
    ident: Ident,
    r: Result<StructSerializer, ()>,
    before: Seq<SyntaxError>,
    after: Seq<SyntaxError>,
) -> bool {
    match struct_serializers(data, answers) {
        Err(e) => r is Err && after == before.push(e),
        Ok(serializers) => {
            &&& r is Ok
            &&& after == before
            &&& r->Ok_0.name == ident.name
            &&& r->Ok_0.fields@ == serializers
        },
    }
}

/// Builds the encoding table of the message `ident`, declared as the
/// struct `data`. The first error of the declaration is recorded in
/// `context`. Whether a literal is a path is asked of the parser; the result
/// is that of the answers given.
pub fn expand_struct(context: &mut Context, _meta: &DeriveMeta, ident: &Ident, data: &DataStruct) -> (r:
    Result<StructSerializer, ()>)
    ensures
        exists|answers: Seq<Seq<bool>>| #[trigger]
            expands(*data, answers, *ident, r, old(context).errors(), final(context).errors()),
{
    let ghost start = context.errors();
    match &data.fields {
        Fields::Named(f) => {
            let ghost mut answers: Seq<Seq<bool>> = Seq::empty();
            let mut fields: Vec<FieldSerializer> = Vec::new();
            let mut i: usize = 0;
            while i < f.len()
                invariant
                    i <= f@.len(),
                    answers.len() == i,
                    data.fields == Fields::Named(*f),
                    context.errors() == start,
                    start == old(context).errors(),
                    gather(field_serializers(f@, answers), i as int) == Ok::<
                        Seq<FieldSerializer>,
                        SyntaxError,
                    >(fields@),
                decreases f@.len() - i,
            {
                let written = serialize_field(context, &f[i]);
                proof {
                    let given = choose|given: Seq<bool>| #[trigger]
                        serialized(f@[i as int], given, written, start, context.errors());
                    let earlier = answers;
                    answers = answers.push(given);
                    lemma_gather_same(
                        field_serializers(f@, answers),
                        field_serializers(f@, earlier),
                        i as int,
                    );
                    assert(ProstAttr::answers_of(answers, i as int) == given);
                }
                match written {
                    Ok(serializer) => {
                        fields.push(serializer);
                    },
                    Err(()) => {
                        proof {
                            lemma_gather_error_stays(
                                field_serializers(f@, answers),
                                i as int + 1,
                                f@.len() as int,
                            );
                            assert(expands(*data, answers, *ident, Err(()), start, context.errors()));
                        }
                        return Err(());
                    },
                }
                i += 1;
            }
            let r = Ok(StructSerializer { name: ident.name.clone(), fields });
            assert(expands(*data, answers, *ident, r, start, context.errors()));
            r
        },
        Fields::Unnamed(span) => {
            context.push_error_spanned_by(*span, ErrorKind::TupleStructSerialize);
            assert(expands(
                *data,
                Seq::<Seq<bool>>::empty(),
                *ident,
                Err(()),
                start,
                context.errors(),
            ));
            Err(())
        },
        Fields::Unit(span) => {
            context.push_error_spanned_by(*span, ErrorKind::UnitStructSerialize);
            assert(expands(
                *data,
                Seq::<Seq<bool>>::empty(),
                *ident,
                Err(()),
                start,
                context.errors(),
            ));
            Err(())
        },
    }
}

} // verus!
