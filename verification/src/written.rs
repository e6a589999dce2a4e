//! The form in which messages are written, and what holds of a JSON value
//! in that form: it is read as a message that is written as that same
//! value.

use vstd::prelude::*;
use crate::attr::{FieldModifier, ProtobufType};
use crate::bytes::{base64_decoded, base64_encoded};
use crate::catalog::{
    coherent,
    lemma_named,
    lemma_tables_together,
    lemma_valued,
    names_of,
    paired,
    valued_from,
    Catalog,
};
use crate::decode::{
    dispatch,
    item_values,
    lemma_dispatch_bounds,
    lemma_dispatch_of_answer,
    member_value,
    member_values,
    narrowed,
    narrowings,
    scan,
    spec_decode_value,
    spec_fits,
    spec_get_value,
    spec_raw_value,
    spec_visit_map,
};
use crate::deserialize::field::ValueGetter;
use crate::deserialize::structure::{FieldVisitor, StructVisitor};
use crate::encode::{
    field_members,
    item_jsons,
    lemma_present_grows,
    lemma_present_prefix,
    present,
    spec_encode_field,
    spec_encode_message,
    spec_encode_value,
};
use crate::gather::{gather, lemma_gather_exact, lemma_gather_ok};
use crate::json::{JsonView, MemberView};
use crate::message::{
    message_reads_back,
    value_reads_back,
    DecodeErrorView,
    EncodeError,
    FieldValueView,
    MessageView,
    OneofValueView,
    ValueView,
};
use crate::round_trip::{lemma_field_round_trip, lemma_same_type_writes};
use crate::serialize::field::FieldSerializer;
use crate::serialize::structure::StructSerializer;
use crate::text::{lemma_position, position};

verus! {

/// Whether `json` is a value of the type `ty` in the form in which values
/// are written: a boolean, a string or a number that fits the type as it
/// is; bytes as the base64 text that writing them gives; a value of an
/// enumeration as the name of a variant; a message as an object of its
/// fields in written form.
pub open spec fn written_value(
    catalog: Catalog,
    ty: ProtobufType,
    message: Seq<char>,
    json: JsonView,
) -> bool
    decreases json, 1int, 0int,
{
    match ty {
        ProtobufType::Bool => json is Bool,
        ProtobufType::String => json is String,
        ProtobufType::Bytes(_) => json matches JsonView::String(s) && base64_decoded(s) matches Some(
            bytes,
        ) && base64_encoded(bytes) == s,
        ProtobufType::Enumeration(path) => catalog.spec_enumeration(path@) matches Some(registry)
            && json matches JsonView::String(s) && registry.spec_value_for(s) is Some,
        ProtobufType::Message => catalog.spec_visitor(message) matches Some(visitor)
            && json matches JsonView::Object(members) && written_members(
            catalog,
            visitor,
            members,
            visitor.fields@.len() as int,
            members.len() as int,
        ),
        ProtobufType::OneOf(_) => false,
        _ => json matches JsonView::Number(n) && spec_fits(ty, n),
    }
}

/// Whether `json` is what a field read by `getter` is written as: one
/// value; `null` or one value where the field is optional; an array of
/// values where it is repeated.
pub open spec fn written_field(catalog: Catalog, getter: ValueGetter, json: JsonView) -> bool
    decreases json, 2int, 0int,
{
    match getter.modifier {
        FieldModifier::Singular => written_value(catalog, getter.ty, getter.message@, json),
        FieldModifier::Optional => json is Null || written_value(
            catalog,
            getter.ty,
            getter.message@,
            json,
        ),
        FieldModifier::Repeated => json matches JsonView::Array(items) && forall|i: int|
            0 <= i < items.len() ==> written_value(
                catalog,
                getter.ty,
                getter.message@,
                #[trigger] items[i],
            ),
    }
}

/// Whether the first `c` members are what the first `k` fields of a message
/// are written as: one member for every field, in the order of the fields,
/// under the key of the field and with its value in written form; for a
/// oneof one member under the key of a variant, or none.
pub open spec fn written_members(
    catalog: Catalog,
    visitor: StructVisitor,
    members: Seq<MemberView>,
    k: int,
    c: int,
) -> bool
    decreases members, 0int, k,
{
    if k <= 0 || k > visitor.fields@.len() {
        k == 0 && c == 0
    } else {
        let getter = visitor.fields@[k - 1].tokens.value_getter_expr;
        if 0 < c <= members.len() && dispatch(catalog, visitor.fields@, members[c - 1].key)
            == Some(k - 1) {
            &&& written_members(catalog, visitor, members, k - 1, c - 1)
            &&& match getter.ty {
                ProtobufType::OneOf(path) => catalog.spec_oneof(path@) matches Some(registry)
                    && position(names_of(registry.variants@), members[c - 1].key) matches Some(i)
                    && written_value(
                    catalog,
                    registry.variants@[i].ty,
                    registry.variants@[i].message@,
                    members[c - 1].value,
                ),
                _ => written_field(catalog, getter, members[c - 1].value),
            }
        } else {
            getter.ty is OneOf && written_members(catalog, visitor, members, k - 1, c)
        }
    }
}

/// Whether `json` is the message named `name` in the form in which
/// messages are written.
pub open spec fn written_message(catalog: Catalog, name: Seq<char>, json: JsonView) -> bool {
    written_value(catalog, ProtobufType::Message, name, json)
}

/// A value in written form is read as a value that is written as it was.
pub proof fn lemma_written_value(
    catalog: Catalog,
    ty: ProtobufType,
    message: Seq<char>,
    json: JsonView,
)
    requires
        catalog.wf(),
        written_value(catalog, ty, message, json),
    ensures
        spec_decode_value(catalog, ty, message, json) matches Ok(value) && spec_encode_value(
            catalog,
            ty,
            message,
            value,
        ) == Ok::<JsonView, EncodeError>(json),
    decreases json, 1int, 0int,
{
    match ty {
        ProtobufType::Enumeration(path) => {
            lemma_named(catalog.enumerations@, path@);
            let registry = catalog.spec_enumeration(path@)->0;
            let text = json->String_0;
            lemma_named(registry.variants@, text);
            let i = position(names_of(registry.variants@), text)->0;
            let value = registry.variants@[i].value;
            lemma_valued(registry.variants@, value, 0);
            let j = valued_from(registry.variants@, value, 0)->0;
            assert(i == j);
        },
        ProtobufType::Message => {
            lemma_tables_together(catalog, message);
            lemma_written_object(
                catalog,
                catalog.spec_visitor(message)->0,
                catalog.spec_serializer(message)->0,
                json,
            );
        },
        _ => {},
    }
}

/// The value of a field in written form is read as what is written as it
/// was, under the name of the field.
pub proof fn lemma_written_field(
    catalog: Catalog,
    visitor: FieldVisitor,
    serializer: FieldSerializer,
    key: Seq<char>,
    json: JsonView,
)
    requires
        catalog.wf(),
        paired(visitor, serializer),
        serializer is Emit,
        written_field(catalog, visitor.tokens.value_getter_expr, json),
    ensures
        spec_get_value(catalog, visitor.tokens.value_getter_expr, key, json) matches Ok(field)
            && spec_encode_field(catalog, serializer, field) == Ok::<
            Option<MemberView>,
            EncodeError,
        >(Some(MemberView { key: serializer->Emit_name@, value: json })),
    decreases json, 2int, 0int,
{
    let getter = visitor.tokens.value_getter_expr;
    let ty = serializer->Emit_ty;
    let message = serializer->Emit_message;
    match getter.modifier {
        FieldModifier::Repeated => {
            let items = json->Array_0;
            let results = item_values(catalog, getter.ty, getter.message@, items);
            let values = Seq::new(items.len(), |i: int| results[i]->Ok_0);
            assert forall|i: int| 0 <= i < items.len() implies #[trigger] results[i] == Ok::<
                ValueView,
                DecodeErrorView,
            >(values[i]) && item_jsons(catalog, ty, message@, values)[i] == Ok::<
                JsonView,
                EncodeError,
            >(items[i]) by {
                lemma_written_value(catalog, getter.ty, getter.message@, items[i]);
                lemma_same_type_writes(catalog, getter.ty, ty, message@, values[i]);
            }
            lemma_gather_exact(results, values, items.len() as int);
            assert(values.subrange(0, items.len() as int) =~= values);
            lemma_gather_exact(
                item_jsons(catalog, ty, message@, values),
                items,
                items.len() as int,
            );
            assert(items.subrange(0, items.len() as int) =~= items);
            assert(spec_raw_value(catalog, getter, key, json) == Ok::<
                FieldValueView,
                DecodeErrorView,
            >(FieldValueView::Repeated(values)));
        },
        _ => {
            if !(json is Null) || getter.modifier == FieldModifier::Singular {
                lemma_written_value(catalog, getter.ty, getter.message@, json);
                let value = spec_decode_value(catalog, getter.ty, getter.message@, json)->Ok_0;
                lemma_same_type_writes(catalog, getter.ty, ty, message@, value);
            }
            assert(spec_raw_value(catalog, getter, key, json) is Ok);
        },
    }
}

/// What the field at `slot` is written as, after it was narrowed from what
/// the members gave it.
pub open spec fn rewritten(
    catalog: Catalog,
    visitor: StructVisitor,
    serializer: StructSerializer,
    slots: Seq<Option<FieldValueView>>,
    slot: int,
) -> Result<Option<MemberView>, EncodeError> {
    match narrowed(catalog, visitor.fields@[slot], slots[slot]) {
        Ok(field) => spec_encode_field(catalog, serializer.fields@[slot], field),
        Err(_) => Err(EncodeError::Mismatch),
    }
}

/// What the fields are written as, each narrowed from what the members gave
/// it.
pub open spec fn all_rewritten(
    catalog: Catalog,
    visitor: StructVisitor,
    serializer: StructSerializer,
    slots: Seq<Option<FieldValueView>>,
) -> Seq<Option<MemberView>> {
    Seq::new(
        visitor.fields@.len(),
        |i: int|
            match rewritten(catalog, visitor, serializer, slots, i) {
                Ok(member) => member,
                Err(_) => None,
            },
    )
}

/// The first `c` members in written form give the first `k` fields what is
/// written as those members, and leave the other fields empty.
pub proof fn lemma_written_members(
    catalog: Catalog,
    visitor: StructVisitor,
    serializer: StructSerializer,
    members: Seq<MemberView>,
    k: int,
    c: int,
)
    requires
        catalog.wf(),
        coherent(visitor, serializer),
        catalog.unambiguous(visitor),
        0 <= k <= visitor.fields@.len(),
        written_members(catalog, visitor, members, k, c),
    ensures
        0 <= c <= members.len(),
        scan(catalog, visitor, members, member_values(catalog, visitor, members), c) is Ok,
        ({
            let slots = scan(
                catalog,
                visitor,
                members,
                member_values(catalog, visitor, members),
                c,
            )->Ok_0;
            &&& slots.len() == visitor.fields@.len()
            &&& forall|i: int| k <= i < slots.len() ==> (#[trigger] slots[i]) is None
            &&& forall|i: int|
                0 <= i < k ==> (#[trigger] rewritten(catalog, visitor, serializer, slots, i)) is Ok
            &&& present(all_rewritten(catalog, visitor, serializer, slots), k) == members.subrange(
                0,
                c,
            )
        }),
    decreases members, 0int, k,
{
    let values = member_values(catalog, visitor, members);
    let count = visitor.fields@.len() as int;
    if k == 0 {
        assert(members.subrange(0, 0) =~= Seq::<MemberView>::empty());
    } else {
        let field = visitor.fields@[k - 1];
        let getter = field.tokens.value_getter_expr;
        assert(paired(field, serializer.fields@[k - 1]));
        if 0 < c <= members.len() && dispatch(catalog, visitor.fields@, members[c - 1].key)
            == Some(k - 1) {
            lemma_written_members(catalog, visitor, serializer, members, k - 1, c - 1);
            let before = scan(catalog, visitor, members, values, c - 1)->Ok_0;
            let member = members[c - 1];
            assert(values[c - 1] == member_value(catalog, visitor, member));
            lemma_dispatch_bounds(catalog, visitor.fields@, member.key);
            match getter.ty {
                ProtobufType::OneOf(path) => {
                    lemma_named(catalog.oneofs@, path@);
                    let registry = catalog.spec_oneof(path@)->0;
                    lemma_named(registry.variants@, member.key);
                    let i = position(names_of(registry.variants@), member.key)->0;
                    lemma_written_value(
                        catalog,
                        registry.variants@[i].ty,
                        registry.variants@[i].message@,
                        member.value,
                    );
                    let value = spec_decode_value(
                        catalog,
                        registry.variants@[i].ty,
                        registry.variants@[i].message@,
                        member.value,
                    )->Ok_0;
                    let active = OneofValueView { variant: i, value };
                    assert(spec_raw_value(catalog, getter, member.key, member.value) == Ok::<
                        FieldValueView,
                        DecodeErrorView,
                    >(FieldValueView::Oneof(Some(active))));
                    assert(spec_encode_field(
                        catalog,
                        serializer.fields@[k - 1],
                        FieldValueView::Oneof(Some(active)),
                    ) == Ok::<Option<MemberView>, EncodeError>(Some(member)));
                },
                _ => {
                    lemma_written_field(
                        catalog,
                        field,
                        serializer.fields@[k - 1],
                        member.key,
                        member.value,
                    );
                },
            }
            let given = values[c - 1]->Ok_0;
            let after = before.update(k - 1, Some(given));
            assert(scan(catalog, visitor, members, values, c) == Ok::<
                Seq<Option<FieldValueView>>,
                DecodeErrorView,
            >(after));
            assert forall|i: int| 0 <= i < k - 1 implies rewritten(
                catalog,
                visitor,
                serializer,
                after,
                i,
            ) == rewritten(catalog, visitor, serializer, before, i) by {}
            assert(rewritten(catalog, visitor, serializer, after, k - 1) == Ok::<
                Option<MemberView>,
                EncodeError,
            >(Some(member)));
            lemma_present_prefix(
                all_rewritten(catalog, visitor, serializer, after),
                all_rewritten(catalog, visitor, serializer, before),
                k - 1,
            );
            assert(members.subrange(0, c) =~= members.subrange(0, c - 1).push(member));
        } else {
            lemma_written_members(catalog, visitor, serializer, members, k - 1, c);
            let slots = scan(catalog, visitor, members, values, c)->Ok_0;
            assert(slots[k - 1] is None);
            assert(rewritten(catalog, visitor, serializer, slots, k - 1) == Ok::<
                Option<MemberView>,
                EncodeError,
            >(None));
        }
    }
}

/// An object in written form is read as a message that is written as it
/// was.
pub proof fn lemma_written_object(
    catalog: Catalog,
    visitor: StructVisitor,
    serializer: StructSerializer,
    json: JsonView,
)
    requires
        catalog.wf(),
        coherent(visitor, serializer),
        catalog.unambiguous(visitor),
        json matches JsonView::Object(members) && written_members(
            catalog,
            visitor,
            members,
            visitor.fields@.len() as int,
            members.len() as int,
        ),
    ensures
        spec_visit_map(catalog, visitor, json) matches Ok(message) && spec_encode_message(
            catalog,
            serializer,
            message,
        ) == Ok::<JsonView, EncodeError>(json),
    decreases json, 0int, 0int,
{
    let members = json->Object_0;
    let values = member_values(catalog, visitor, members);
    let count = visitor.fields@.len() as int;
    lemma_written_members(catalog, visitor, serializer, members, count, members.len() as int);
    let slots = scan(catalog, visitor, members, values, members.len() as int)->Ok_0;
    let narrows = narrowings(catalog, visitor, slots);
    let fields = Seq::new(count as nat, |i: int| narrows[i]->Ok_0);
    assert forall|i: int| 0 <= i < count implies #[trigger] narrows[i] == Ok::<
        FieldValueView,
        DecodeErrorView,
    >(fields[i]) by {
        assert(rewritten(catalog, visitor, serializer, slots, i) is Ok);
    }
    lemma_gather_exact(narrows, fields, count);
    assert(fields.subrange(0, count) =~= fields);
    let written = all_rewritten(catalog, visitor, serializer, slots);
    let results = field_members(catalog, serializer, fields);
    assert forall|i: int| 0 <= i < count implies #[trigger] results[i] == Ok::<
        Option<MemberView>,
        EncodeError,
    >(written[i]) by {
        assert(rewritten(catalog, visitor, serializer, slots, i) is Ok);
        assert(narrows[i] == Ok::<FieldValueView, DecodeErrorView>(fields[i]));
    }
    lemma_gather_exact(results, written, count);
    assert(written.subrange(0, count) =~= written);
    assert(members.subrange(0, members.len() as int) =~= members);
}

/// One type has one written form, however its path is held.
pub proof fn lemma_same_type_written(
    catalog: Catalog,
    a: ProtobufType,
    b: ProtobufType,
    message: Seq<char>,
    json: JsonView,
)
    requires
        a.spec_same(b),
    ensures
        written_value(catalog, a, message, json) == written_value(catalog, b, message, json),
{
}

/// What a value is written as is in written form.
pub proof fn lemma_value_is_written(
    catalog: Catalog,
    ty: ProtobufType,
    message: Seq<char>,
    value: ValueView,
)
    requires
        catalog.wf(),
        value_reads_back(value),
        spec_encode_value(catalog, ty, message, value) is Ok,
    ensures
        written_value(catalog, ty, message, spec_encode_value(catalog, ty, message, value)->Ok_0),
    decreases value, 0int, 0int,
{
    match ty {
        ProtobufType::Enumeration(path) => {
            let registry = catalog.spec_enumeration(path@)->0;
            let n = value->Enumeration_0;
            lemma_valued(registry.variants@, n, 0);
            let i = valued_from(registry.variants@, n, 0)->0;
            assert(names_of(registry.variants@)[i] == registry.variants@[i].name@);
            lemma_position(names_of(registry.variants@), registry.variants@[i].name@, 0);
        },
        ProtobufType::Message => {
            lemma_tables_together(catalog, message);
            let visitor = catalog.spec_visitor(message)->0;
            let serializer = catalog.spec_serializer(message)->0;
            lemma_fields_are_written(
                catalog,
                visitor,
                serializer,
                value->Message_0,
                visitor.fields@.len() as int,
            );
            let count = visitor.fields@.len() as int;
            let written = gather(
                field_members(catalog, serializer, value->Message_0.fields),
                count,
            )->Ok_0;
            lemma_gather_ok(field_members(catalog, serializer, value->Message_0.fields), count);
        },
        _ => {},
    }
}

/// What the first `k` fields of a message are written as is in written
/// form, and belongs to those fields.
pub proof fn lemma_fields_are_written(
    catalog: Catalog,
    visitor: StructVisitor,
    serializer: StructSerializer,
    message: MessageView,
    k: int,
)
    requires
        catalog.wf(),
        message_reads_back(message),
        coherent(visitor, serializer),
        catalog.unambiguous(visitor),
        spec_encode_message(catalog, serializer, message) is Ok,
        0 <= k <= message.fields.len(),
    ensures
        ({
            let count = message.fields.len() as int;
            let written = gather(field_members(catalog, serializer, message.fields), count)->Ok_0;
            let members = present(written, count);
            let c = present(written, k).len() as int;
            &&& c <= members.len()
            &&& written_members(catalog, visitor, members, k, c)
            &&& forall|j: int|
                0 <= j < c ==> (dispatch(
                    catalog,
                    visitor.fields@,
                    (#[trigger] members[j]).key,
                ) matches Some(slot) && slot < k)
        }),
    decreases message, 2int, k,
{
    let count = message.fields.len() as int;
    let results = field_members(catalog, serializer, message.fields);
    lemma_gather_ok(results, count);
    let written = gather(results, count)->Ok_0;
    let members = present(written, count);
    lemma_present_grows(written, k, count);
    if k > 0 {
        lemma_fields_are_written(catalog, visitor, serializer, message, k - 1);
        lemma_present_grows(written, k - 1, count);
        let before = present(written, k - 1).len() as int;
        let c = present(written, k).len() as int;
        let field = visitor.fields@[k - 1];
        let getter = field.tokens.value_getter_expr;
        assert(results[k - 1] == Ok::<Option<MemberView>, EncodeError>(written[k - 1]));
        assert(paired(field, serializer.fields@[k - 1]));
        match written[k - 1] {
            None => {
                if before > 0 {
                    assert(dispatch(catalog, visitor.fields@, members[before - 1].key) matches Some(
                        slot,
                    ) && slot < k - 1);
                }
            },
            Some(member) => {
                assert(present(written, k) == present(written, k - 1).push(member));
                assert(members[before] == present(written, k)[before]);
                lemma_field_round_trip(
                    catalog,
                    field,
                    serializer.fields@[k - 1],
                    message.fields[k - 1],
                );
                lemma_dispatch_of_answer(catalog, visitor, k - 1, member.key);
                match serializer.fields@[k - 1] {
                    FieldSerializer::Flatten { oneof } => {
                        let active = message.fields[k - 1]->Oneof_0->0;
                        let registry = catalog.spec_oneof(oneof@)->0;
                        lemma_named(catalog.oneofs@, oneof@);
                        let i = active.variant;
                        assert(names_of(registry.variants@)[i] == registry.variants@[i].name@);
                        crate::text::lemma_position_of_distinct(names_of(registry.variants@), i);
                        lemma_value_is_written(
                            catalog,
                            registry.variants@[i].ty,
                            registry.variants@[i].message@,
                            active.value,
                        );
                    },
                    FieldSerializer::Emit { name, ty, modifier, message: held } => {
                        match message.fields[k - 1] {
                            FieldValueView::Single(value) => {
                                lemma_value_is_written(catalog, ty, held@, value);
                                lemma_same_type_written(
                                    catalog,
                                    getter.ty,
                                    ty,
                                    held@,
                                    member.value,
                                );
                            },
                            FieldValueView::Optional(Some(value)) => {
                                lemma_value_is_written(catalog, ty, held@, value);
                                lemma_same_type_written(
                                    catalog,
                                    getter.ty,
                                    ty,
                                    held@,
                                    member.value,
                                );
                            },
                            FieldValueView::Repeated(values) => {
                                let jsons = item_jsons(catalog, ty, held@, values);
                                lemma_gather_ok(jsons, values.len() as int);
                                let items = gather(jsons, values.len() as int)->Ok_0;
                                assert forall|i: int| 0 <= i < items.len() implies written_value(
                                    catalog,
                                    getter.ty,
                                    getter.message@,
                                    #[trigger] items[i],
                                ) by {
                                    assert(jsons[i] == Ok::<JsonView, EncodeError>(items[i]));
                                    lemma_value_is_written(catalog, ty, held@, values[i]);
                                    lemma_same_type_written(
                                        catalog,
                                        getter.ty,
                                        ty,
                                        held@,
                                        items[i],
                                    );
                                }
                            },
                            _ => {},
                        }
                        assert(written_field(catalog, getter, member.value));
                    },
                }
            },
        }
    }
}

} // verus!
