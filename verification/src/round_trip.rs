//! Reading what was written: a message that is encoded is decoded as itself.

use vstd::prelude::*;
use crate::attr::{FieldModifier, ProtobufType};
use crate::catalog::{
    coherent,
    lemma_named,
    lemma_tables_together,
    lemma_valued,
    names_of,
    paired,
    valued_from,
    Catalog,
    OneofRegistry,
};
use crate::decode::{
    answers,
    dispatch,
    item_values,
    lemma_dispatch_bounds,
    lemma_dispatch_of_answer,
    lemma_scan_error_stays,
    lemma_scan_len,
    member_value,
    member_values,
    narrowings,
    scan,
    spec_decode_value,
    spec_get_value,
    spec_raw_value,
    spec_visit_map,
    spec_visit_variant,
};
use crate::deserialize::structure::{FieldVisitor, StructVisitor};
use crate::encode::{
    field_members,
    item_jsons,
    lemma_present_grows,
    present,
    spec_encode_field,
    spec_encode_message,
    spec_encode_value,
    spec_encode_variant,
};
use crate::gather::{gather, lemma_gather_all, lemma_gather_exact, lemma_gather_ok};
use crate::json::{JsonView, MemberView};
use crate::message::{
    field_reads_back,
    message_reads_back,
    value_reads_back,
    DecodeErrorView,
    EncodeError,
    FieldValueView,
    MessageView,
    OneofValueView,
    ValueView,
};
use crate::serialize::field::FieldSerializer;
use crate::serialize::structure::StructSerializer;
use crate::text::{lemma_position_of_distinct, position};

verus! {

/// What a value is written as is never `null`.
pub proof fn lemma_written_value_is_not_null(
    catalog: Catalog,
    ty: ProtobufType,
    message: Seq<char>,
    value: ValueView,
)
    ensures
        spec_encode_value(catalog, ty, message, value) matches Ok(json) ==> !(json is Null),
{
}

/// One type reads a value in one way, however its path is held.
pub proof fn lemma_same_type_reads(
    catalog: Catalog,
    a: ProtobufType,
    b: ProtobufType,
    message: Seq<char>,
    json: JsonView,
)
    requires
        a.spec_same(b),
    ensures
        spec_decode_value(catalog, a, message, json) == spec_decode_value(
            catalog,
            b,
            message,
            json,
        ),
{
}

/// One type writes a value in one way, however its path is held.
pub proof fn lemma_same_type_writes(
    catalog: Catalog,
    a: ProtobufType,
    b: ProtobufType,
    message: Seq<char>,
    value: ValueView,
)
    requires
        a.spec_same(b),
    ensures
        spec_encode_value(catalog, a, message, value) == spec_encode_value(
            catalog,
            b,
            message,
            value,
        ),
{
}

/// A value that is written is read back as itself.
pub proof fn lemma_value_round_trip(
    catalog: Catalog,
    ty: ProtobufType,
    message: Seq<char>,
    value: ValueView,
)
    requires
        catalog.wf(),
        value_reads_back(value),
        spec_encode_value(catalog, ty, message, value) is Ok,
    ensures
        spec_decode_value(
            catalog,
            ty,
            message,
            spec_encode_value(catalog, ty, message, value)->Ok_0,
        ) == Ok::<ValueView, DecodeErrorView>(value),
    decreases value, 0int, 0int,
{
    match ty {
        ProtobufType::Enumeration(path) => {
            lemma_named(catalog.enumerations@, path@);
            let registry = catalog.spec_enumeration(path@)->0;
            let n = value->Enumeration_0;
            lemma_valued(registry.variants@, n, 0);
            let i = valued_from(registry.variants@, n, 0)->0;
            assert(names_of(registry.variants@)[i] == registry.variants@[i].name@);
            lemma_position_of_distinct(names_of(registry.variants@), i);
        },
        ProtobufType::Message => {
            lemma_tables_together(catalog, message);
            let serializer = catalog.spec_serializer(message)->0;
            let visitor = catalog.spec_visitor(message)->0;
            lemma_message_round_trip(catalog, visitor, serializer, value->Message_0);
        },
        _ => {},
    }
}

/// The active variant of a oneof that is written is read back as itself.
pub proof fn lemma_variant_round_trip(
    catalog: Catalog,
    registry: OneofRegistry,
    active: OneofValueView,
)
    requires
        catalog.wf(),
        value_reads_back(active.value),
        distinct_names(registry),
        spec_encode_variant(catalog, registry, active) is Ok,
    ensures
        ({
            let member = spec_encode_variant(catalog, registry, active)->Ok_0;
            &&& position(names_of(registry.variants@), member.key) is Some
            &&& spec_visit_variant(catalog, registry, member.key, member.value) == Ok::<
                OneofValueView,
                DecodeErrorView,
            >(active)
        }),
    decreases active, 0int, 0int,
{
    let i = active.variant;
    assert(names_of(registry.variants@)[i] == registry.variants@[i].name@);
    lemma_position_of_distinct(names_of(registry.variants@), i);
    lemma_value_round_trip(
        catalog,
        registry.variants@[i].ty,
        registry.variants@[i].message@,
        active.value,
    );
}

/// Whether no two variants of the oneof share a name.
pub open spec fn distinct_names(registry: OneofRegistry) -> bool {
    crate::text::distinct(names_of(registry.variants@))
}

/// A field that is written is read back, under the key it was written
/// under, as itself.
pub proof fn lemma_field_round_trip(
    catalog: Catalog,
    visitor: FieldVisitor,
    serializer: FieldSerializer,
    field: FieldValueView,
)
    requires
        catalog.wf(),
        field_reads_back(field),
        paired(visitor, serializer),
        spec_encode_field(catalog, serializer, field) matches Ok(Some(_)),
    ensures
        ({
            let member = spec_encode_field(catalog, serializer, field)->Ok_0->0;
            &&& answers(catalog, visitor, member.key)
            &&& spec_get_value(
                catalog,
                visitor.tokens.value_getter_expr,
                member.key,
                member.value,
            ) == Ok::<FieldValueView, DecodeErrorView>(field)
        }),
    decreases field, 1int, 0int,
{
    let getter = visitor.tokens.value_getter_expr;
    let member = spec_encode_field(catalog, serializer, field)->Ok_0->0;
    match serializer {
        FieldSerializer::Flatten { oneof } => {
            let active = field->Oneof_0->0;
            lemma_named(catalog.oneofs@, oneof@);
            let registry = catalog.spec_oneof(oneof@)->0;
            lemma_variant_round_trip(catalog, registry, active);
            assert(spec_raw_value(catalog, getter, member.key, member.value) == Ok::<
                FieldValueView,
                DecodeErrorView,
            >(field));
        },
        FieldSerializer::Emit { name, ty, modifier, message } => {
            match field {
                FieldValueView::Single(value) => {
                    lemma_value_round_trip(catalog, ty, message@, value);
                    assert(spec_raw_value(catalog, getter, member.key, member.value) == Ok::<
                        FieldValueView,
                        DecodeErrorView,
                    >(field));
                },
                FieldValueView::Optional(None) => {
                    assert(spec_raw_value(catalog, getter, member.key, member.value) == Ok::<
                        FieldValueView,
                        DecodeErrorView,
                    >(field));
                },
                FieldValueView::Optional(Some(value)) => {
                    lemma_value_round_trip(catalog, ty, message@, value);
                    lemma_written_value_is_not_null(catalog, ty, message@, value);
                    assert(spec_raw_value(catalog, getter, member.key, member.value) == Ok::<
                        FieldValueView,
                        DecodeErrorView,
                    >(field));
                },
                FieldValueView::Repeated(values) => {
                    let written = item_jsons(catalog, ty, message@, values);
                    lemma_gather_ok(written, values.len() as int);
                    let items = gather(written, values.len() as int)->Ok_0;
                    let results = item_values(catalog, getter.ty, message@, items);
                    assert forall|i: int| 0 <= i < values.len() implies #[trigger] results[i]
                        == Ok::<ValueView, DecodeErrorView>(values[i]) by {
                        assert(written[i] == Ok::<JsonView, EncodeError>(items[i]));
                        lemma_value_round_trip(catalog, ty, message@, values[i]);
                        lemma_same_type_reads(catalog, getter.ty, ty, message@, items[i]);
                    }
                    lemma_gather_exact(results, values, values.len() as int);
                    assert(values.subrange(0, values.len() as int) =~= values);
                    assert(spec_raw_value(catalog, getter, member.key, member.value) == Ok::<
                        FieldValueView,
                        DecodeErrorView,
                    >(field));
                },
                _ => {},
            }
        },
    }
}

/// What the fields look like after the members that the first `k` fields
/// were written as: a field that was written holds what it held, and every
/// other field holds nothing yet.
pub open spec fn slots_after(
    fields: Seq<FieldValueView>,
    written: Seq<Option<MemberView>>,
    k: int,
) -> Seq<Option<FieldValueView>> {
    Seq::new(
        fields.len(),
        |i: int|
            if i < k && written[i] is Some {
                Some(fields[i])
            } else {
                None
            },
    )
}

/// The members that the first `k` fields of a message are written as leave
/// those fields as they were, and the others empty.
pub proof fn lemma_scan_of_written(
    catalog: Catalog,
    visitor: StructVisitor,
    serializer: StructSerializer,
    message: MessageView,
    k: int,
)
    requires
        catalog.wf(),
        message_reads_back(message),
        coherent(visitor, serializer),
        catalog.unambiguous(visitor),
        spec_encode_message(catalog, serializer, message) is Ok,
        0 <= k <= message.fields.len(),
    ensures
        ({
            let count = message.fields.len() as int;
            let written = gather(field_members(catalog, serializer, message.fields), count)->Ok_0;
            let members = present(written, count);
            scan(
                catalog,
                visitor,
                members,
                member_values(catalog, visitor, members),
                present(written, k).len() as int,
            ) == Ok::<Seq<Option<FieldValueView>>, DecodeErrorView>(
                slots_after(message.fields, written, k),
            )
        }),
    decreases message, 2int, k,
{
    let count = message.fields.len() as int;
    let results = field_members(catalog, serializer, message.fields);
    lemma_gather_ok(results, count);
    let written = gather(results, count)->Ok_0;
    let members = present(written, count);
    let values = member_values(catalog, visitor, members);
    if k == 0 {
        assert(slots_after(message.fields, written, 0) =~= Seq::new(
            visitor.fields@.len(),
            |i: int| None,
        ));
    } else {
        lemma_scan_of_written(catalog, visitor, serializer, message, k - 1);
        lemma_present_grows(written, k - 1, count);
        lemma_present_grows(written, k, count);
        let before = present(written, k - 1).len() as int;
        assert(results[k - 1] == Ok::<Option<MemberView>, EncodeError>(written[k - 1]));
        match written[k - 1] {
            None => {
                assert(slots_after(message.fields, written, k) =~= slots_after(
                    message.fields,
                    written,
                    k - 1,
                ));
            },
            Some(member) => {
                assert(present(written, k) == present(written, k - 1).push(member));
                assert(members[before] == present(written, k)[before]);
                assert(members[before] == member);
                lemma_field_round_trip(
                    catalog,
                    visitor.fields@[k - 1],
                    serializer.fields@[k - 1],
                    message.fields[k - 1],
                );
                lemma_dispatch_of_answer(catalog, visitor, k - 1, member.key);
                assert(values[before] == member_value(catalog, visitor, members[before]));
                assert(slots_after(message.fields, written, k) =~= slots_after(
                    message.fields,
                    written,
                    k - 1,
                ).update(k - 1, Some(message.fields[k - 1])));
            },
        }
    }
}

/// A message that is written by one of its tables is read back by the
/// other as itself.
pub proof fn lemma_message_round_trip(
    catalog: Catalog,
    visitor: StructVisitor,
    serializer: StructSerializer,
    message: MessageView,
)
    requires
        catalog.wf(),
        message_reads_back(message),
        coherent(visitor, serializer),
        catalog.unambiguous(visitor),
        spec_encode_message(catalog, serializer, message) is Ok,
    ensures
        spec_visit_map(
            catalog,
            visitor,
            spec_encode_message(catalog, serializer, message)->Ok_0,
        ) == Ok::<MessageView, DecodeErrorView>(message),
    decreases message, 3int, 0int,
{
    let count = message.fields.len() as int;
    let results = field_members(catalog, serializer, message.fields);
    lemma_gather_ok(results, count);
    let written = gather(results, count)->Ok_0;
    let members = present(written, count);
    lemma_scan_of_written(catalog, visitor, serializer, message, count);
    let slots = slots_after(message.fields, written, count);
    let narrows = narrowings(catalog, visitor, slots);
    assert forall|i: int| 0 <= i < count implies #[trigger] narrows[i] == Ok::<
        FieldValueView,
        DecodeErrorView,
    >(message.fields[i]) by {
        assert(results[i] == Ok::<Option<MemberView>, EncodeError>(written[i]));
        assert(paired(visitor.fields@[i], serializer.fields@[i]));
    }
    lemma_gather_exact(narrows, message.fields, count);
    assert(message.fields.subrange(0, count) =~= message.fields);
}

/// A value that was read can be written.
pub proof fn lemma_read_value_is_written(
    catalog: Catalog,
    ty: ProtobufType,
    message: Seq<char>,
    json: JsonView,
)
    requires
        catalog.wf(),
        spec_decode_value(catalog, ty, message, json) is Ok,
    ensures
        spec_encode_value(
            catalog,
            ty,
            message,
            spec_decode_value(catalog, ty, message, json)->Ok_0,
        ) is Ok,
    decreases json, 1int, 0int,
{
    match ty {
        ProtobufType::Enumeration(path) => {
            let registry = catalog.spec_enumeration(path@)->0;
            let text = json->String_0;
            lemma_named(registry.variants@, text);
            let value = registry.spec_value_for(text)->0;
            lemma_valued(registry.variants@, value, 0);
        },
        ProtobufType::Message => {
            lemma_tables_together(catalog, message);
            lemma_read_message_is_written(
                catalog,
                catalog.spec_visitor(message)->0,
                catalog.spec_serializer(message)->0,
                json,
            );
        },
        _ => {},
    }
}

/// What a field was given can be written.
pub proof fn lemma_read_field_is_written(
    catalog: Catalog,
    visitor: FieldVisitor,
    serializer: FieldSerializer,
    key: Seq<char>,
    json: JsonView,
)
    requires
        catalog.wf(),
        paired(visitor, serializer),
        catalog.defaults_written(visitor, serializer),
        spec_get_value(catalog, visitor.tokens.value_getter_expr, key, json) is Ok,
    ensures
        spec_encode_field(
            catalog,
            serializer,
            spec_get_value(catalog, visitor.tokens.value_getter_expr, key, json)->Ok_0,
        ) is Ok,
    decreases json, 2int, 0int,
{
    let getter = visitor.tokens.value_getter_expr;
    let raw = spec_raw_value(catalog, getter, key, json);
    if raw is Ok {
        match serializer {
            FieldSerializer::Flatten { oneof } => {
                let registry = catalog.spec_oneof(oneof@)->0;
                let i = position(names_of(registry.variants@), key)->0;
                lemma_named(registry.variants@, key);
                lemma_read_value_is_written(
                    catalog,
                    registry.variants@[i].ty,
                    registry.variants@[i].message@,
                    json,
                );
            },
            FieldSerializer::Emit { name, ty, modifier, message } => {
                match modifier {
                    FieldModifier::Repeated => {
                        let items = json->Array_0;
                        let results = item_values(catalog, getter.ty, getter.message@, items);
                        lemma_gather_ok(results, items.len() as int);
                        let values = gather(results, items.len() as int)->Ok_0;
                        let written = item_jsons(catalog, ty, message@, values);
                        assert forall|i: int| 0 <= i < values.len() implies (
                        #[trigger] written[i]) is Ok by {
                            assert(results[i] == Ok::<ValueView, DecodeErrorView>(values[i]));
                            lemma_read_value_is_written(
                                catalog,
                                getter.ty,
                                getter.message@,
                                items[i],
                            );
                            lemma_same_type_writes(catalog, getter.ty, ty, message@, values[i]);
                        }
                        lemma_gather_all(written, values.len() as int);
                    },
                    _ => {
                        if !(json is Null && modifier == FieldModifier::Optional) {
                            lemma_read_value_is_written(
                                catalog,
                                getter.ty,
                                getter.message@,
                                json,
                            );
                            lemma_same_type_writes(
                                catalog,
                                getter.ty,
                                ty,
                                message@,
                                spec_decode_value(catalog, getter.ty, getter.message@, json)->Ok_0,
                            );
                        }
                    },
                }
            },
        }
    }
}

/// What the members have given the fields can be written.
pub proof fn lemma_scanned_is_written(
    catalog: Catalog,
    visitor: StructVisitor,
    serializer: StructSerializer,
    members: Seq<MemberView>,
    n: int,
)
    requires
        catalog.wf(),
        coherent(visitor, serializer),
        forall|k: int|
            0 <= k < visitor.fields@.len() ==> catalog.defaults_written(
                #[trigger] visitor.fields@[k],
                serializer.fields@[k],
            ),
        0 <= n <= members.len(),
        scan(catalog, visitor, members, member_values(catalog, visitor, members), n) is Ok,
    ensures
        ({
            let slots = scan(
                catalog,
                visitor,
                members,
                member_values(catalog, visitor, members),
                n,
            )->Ok_0;
            &&& slots.len() == visitor.fields@.len()
            &&& forall|i: int|
                0 <= i < slots.len() ==> ((#[trigger] slots[i]) matches Some(value)
                    ==> spec_encode_field(catalog, serializer.fields@[i], value) is Ok)
        }),
    decreases members, 0int, n,
{
    let values = member_values(catalog, visitor, members);
    lemma_scan_len(catalog, visitor, members, values, n);
    if n > 0 {
        if scan(catalog, visitor, members, values, n - 1) is Err {
            lemma_scan_error_stays(catalog, visitor, members, values, n - 1, n);
        }
        lemma_scanned_is_written(catalog, visitor, serializer, members, n - 1);
        lemma_dispatch_bounds(catalog, visitor.fields@, members[n - 1].key);
        match dispatch(catalog, visitor.fields@, members[n - 1].key) {
            Some(slot) => {
                assert(values[n - 1] == member_value(catalog, visitor, members[n - 1]));
                assert(paired(visitor.fields@[slot], serializer.fields@[slot]));
                lemma_read_field_is_written(
                    catalog,
                    visitor.fields@[slot],
                    serializer.fields@[slot],
                    members[n - 1].key,
                    members[n - 1].value,
                );
            },
            None => {},
        }
    }
}

/// A message that was read can be written.
pub proof fn lemma_read_message_is_written(
    catalog: Catalog,
    visitor: StructVisitor,
    serializer: StructSerializer,
    json: JsonView,
)
    requires
        catalog.wf(),
        coherent(visitor, serializer),
        forall|k: int|
            0 <= k < visitor.fields@.len() ==> catalog.defaults_written(
                #[trigger] visitor.fields@[k],
                serializer.fields@[k],
            ),
        spec_visit_map(catalog, visitor, json) is Ok,
    ensures
        spec_encode_message(catalog, serializer, spec_visit_map(catalog, visitor, json)->Ok_0) is Ok,
    decreases json, 0int, 0int,
{
    let members = json->Object_0;
    let values = member_values(catalog, visitor, members);
    let count = visitor.fields@.len() as int;
    lemma_scanned_is_written(catalog, visitor, serializer, members, members.len() as int);
    let slots = scan(catalog, visitor, members, values, members.len() as int)->Ok_0;
    let narrows = narrowings(catalog, visitor, slots);
    lemma_gather_ok(narrows, count);
    let fields = gather(narrows, count)->Ok_0;
    let results = field_members(catalog, serializer, fields);
    assert forall|i: int| 0 <= i < count implies (#[trigger] results[i]) is Ok by {
        assert(narrows[i] == Ok::<FieldValueView, DecodeErrorView>(fields[i]));
        assert(paired(visitor.fields@[i], serializer.fields@[i]));
        assert(catalog.defaults_written(visitor.fields@[i], serializer.fields@[i]));
        if slots[i] is None {
            if visitor.fields@[i].tokens.narrowing_expr is Empty {
                let ty = serializer.fields@[i]->Emit_ty;
                let message = serializer.fields@[i]->Emit_message;
                assert(gather(
                    item_jsons(catalog, ty, message@, Seq::<ValueView>::empty()),
                    0,
                ) is Ok);
            }
        }
    }
    lemma_gather_all(results, count);
}

} // verus!
