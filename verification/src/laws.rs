//! What holds of decoding and encoding, for every catalog and every input.

use vstd::prelude::*;
use crate::attr::{DeriveMeta, FieldModifier, ProtobufType};
use crate::canon::{lemma_shaped_object, lemma_written_value_is_shaped, same_but_null, shaped_value};
use crate::catalog::{
    coherent,
    lemma_tables_together,
    lemma_valued,
    names_of,
    paired,
    valued_from,
    Catalog,
    EnumRegistry,
    OneofRegistry,
};
use crate::decode::{
    dispatch,
    lemma_dispatch_bounds,
    lemma_scan_error_stays,
    lemma_scan_len,
    member_value,
    member_values,
    narrowings,
    scan,
    spec_decode,
    spec_decode_enumeration,
    spec_decode_oneof,
    spec_default_value,
    spec_get_value,
    spec_raw_value,
    spec_visit_map,
};
use crate::deserialize::field::{FieldVisitorTokenGenerator, Narrowing, ValueGetter};
use crate::deserialize::structure::{visits, StructVisitor};
use crate::encode::{spec_encode, spec_encode_enumeration, spec_encode_oneof};
use crate::gather::{gather, lemma_gather_all, lemma_gather_error_stays, lemma_gather_ok};
use crate::json::{JsonView, MemberView};
use crate::message::{
    message_reads_back,
    value_reads_back,
    DecodeErrorView,
    EncodeError,
    FieldValueView,
    MessageView,
    OneofValueView,
};
use crate::round_trip::{
    distinct_names,
    lemma_message_round_trip,
    lemma_read_message_is_written,
    lemma_variant_round_trip,
};
use crate::serialize::field::{field_serializer, FieldSerializer};
use crate::serialize::structure::{field_serializers, StructSerializer};
use crate::syntax::{Field, Ident};
use crate::text::{lemma_position, lemma_position_of_distinct, position};
use crate::written::{lemma_value_is_written, lemma_written_object, written_message};

verus! {

/// A discriminant of an enumeration is written as a name that is read back
/// as the same discriminant.
pub proof fn law_enumeration_round_trip(registry: EnumRegistry, n: i32)
    requires
        registry.wf(),
        registry.spec_name_for(n) is Some,
    ensures
        spec_encode_enumeration(registry, n) matches Ok(json) && spec_decode_enumeration(
            registry,
            json,
        ) == Ok::<i32, DecodeErrorView>(n),
{
    lemma_valued(registry.variants@, n, 0);
    let i = valued_from(registry.variants@, n, 0)->0;
    assert(names_of(registry.variants@)[i] == registry.variants@[i].name@);
    lemma_position_of_distinct(names_of(registry.variants@), i);
}

/// A string that is the name of no variant is read as an `UnknownVariant`.
pub proof fn law_unknown_variant(registry: EnumRegistry, s: Seq<char>)
    requires
        forall|i: int| 0 <= i < registry.variants@.len() ==> registry.variants@[i].name@ != s,
    ensures
        spec_decode_enumeration(registry, JsonView::String(s)) == Err::<i32, DecodeErrorView>(
            DecodeErrorView::UnknownVariant(s),
        ),
{
    lemma_position(names_of(registry.variants@), s, 0);
    if position(names_of(registry.variants@), s) is Some {
        let i = position(names_of(registry.variants@), s)->0;
        assert(names_of(registry.variants@)[i] == registry.variants@[i].name@);
    }
}

/// Whether one of the first `n` members gives the field at `slot`.
pub open spec fn given(
    catalog: Catalog,
    visitor: StructVisitor,
    members: Seq<MemberView>,
    n: int,
    slot: int,
) -> bool {
    exists|k: int|
        0 <= k < n && k < members.len() && dispatch(
            catalog,
            visitor.fields@,
            (#[trigger] members[k]).key,
        ) == Some(slot)
}

/// While no member is in error, the members that came before were in none.
pub proof fn lemma_scan_ok_before(
    catalog: Catalog,
    visitor: StructVisitor,
    members: Seq<MemberView>,
    n: int,
    m: int,
)
    requires
        0 <= n <= m <= members.len(),
        scan(catalog, visitor, members, member_values(catalog, visitor, members), m) is Ok,
    ensures
        scan(catalog, visitor, members, member_values(catalog, visitor, members), n) is Ok,
{
    let values = member_values(catalog, visitor, members);
    if scan(catalog, visitor, members, values, n) is Err {
        lemma_scan_error_stays(catalog, visitor, members, values, n, m);
    }
}

/// After the first `n` members, exactly the fields that one of them gives
/// hold a value.
pub proof fn lemma_scan_given(
    catalog: Catalog,
    visitor: StructVisitor,
    members: Seq<MemberView>,
    n: int,
    slot: int,
)
    requires
        0 <= n <= members.len(),
        0 <= slot < visitor.fields@.len(),
        scan(catalog, visitor, members, member_values(catalog, visitor, members), n) is Ok,
    ensures
        scan(
            catalog,
            visitor,
            members,
            member_values(catalog, visitor, members),
            n,
        )->Ok_0[slot] is Some <==> given(catalog, visitor, members, n, slot),
    decreases n,
{
    let values = member_values(catalog, visitor, members);
    if n > 0 {
        lemma_scan_given(catalog, visitor, members, n - 1, slot);
        lemma_scan_len(catalog, visitor, members, values, n - 1);
        lemma_dispatch_bounds(catalog, visitor.fields@, members[n - 1].key);
        if given(catalog, visitor, members, n - 1, slot) {
            let k = choose|k: int|
                0 <= k < n - 1 && k < members.len() && dispatch(
                    catalog,
                    visitor.fields@,
                    (#[trigger] members[k]).key,
                ) == Some(slot);
            assert(0 <= k < n && dispatch(catalog, visitor.fields@, members[k].key) == Some(slot));
        }
        if dispatch(catalog, visitor.fields@, members[n - 1].key) == Some(slot) {
            assert(0 <= n - 1 < n && dispatch(catalog, visitor.fields@, members[n - 1].key)
                == Some(slot));
        }
        if given(catalog, visitor, members, n, slot) {
            let k = choose|k: int|
                0 <= k < n && k < members.len() && dispatch(
                    catalog,
                    visitor.fields@,
                    (#[trigger] members[k]).key,
                ) == Some(slot);
            if k < n - 1 {
                assert(given(catalog, visitor, members, n - 1, slot));
            }
        }
    }
}

/// A key that is given twice fails the object, whatever the policy: where
/// the key belongs to a field, and where unknown keys are not ignored. Where
/// no earlier member is in error, the second of the two is a
/// `DuplicateField` of the field that the key belongs to.
pub proof fn law_duplicate_key_fails(
    catalog: Catalog,
    visitor: StructVisitor,
    members: Seq<MemberView>,
    a: int,
    b: int,
)
    requires
        0 <= a < b < members.len(),
        members[a].key == members[b].key,
        dispatch(catalog, visitor.fields@, members[a].key) is Some
            || !visitor.ignore_unknown_fields,
    ensures
        spec_visit_map(catalog, visitor, JsonView::Object(members)) is Err,
        scan(catalog, visitor, members, member_values(catalog, visitor, members), b) is Ok ==> (
        match dispatch(catalog, visitor.fields@, members[a].key) {
            Some(slot) => spec_visit_map(catalog, visitor, JsonView::Object(members)) == Err::<
                crate::message::MessageView,
                DecodeErrorView,
            >(DecodeErrorView::DuplicateField(visitor.fields@[slot].name@)),
            None => true,
        }),
{
    let values = member_values(catalog, visitor, members);
    let len = members.len() as int;
    if scan(catalog, visitor, members, values, b) is Err {
        lemma_scan_error_stays(catalog, visitor, members, values, b, len);
    } else {
        match dispatch(catalog, visitor.fields@, members[a].key) {
            Some(slot) => {
                lemma_dispatch_bounds(catalog, visitor.fields@, members[a].key);
                lemma_scan_given(catalog, visitor, members, b, slot);
                assert(given(catalog, visitor, members, b, slot)) by {
                    assert(0 <= a < b && dispatch(catalog, visitor.fields@, members[a].key)
                        == Some(slot));
                }
                lemma_scan_error_stays(catalog, visitor, members, values, b + 1, len);
            },
            None => {
                lemma_scan_error_stays(catalog, visitor, members, values, b + 1, len);
            },
        }
    }
}

/// A key that belongs to no field fails the object with `UnknownField`,
/// where unknown keys are not ignored and no earlier member is in error.
pub proof fn law_unknown_key_strict(
    catalog: Catalog,
    visitor: StructVisitor,
    members: Seq<MemberView>,
    k: int,
)
    requires
        0 <= k < members.len(),
        dispatch(catalog, visitor.fields@, members[k].key) is None,
        !visitor.ignore_unknown_fields,
        scan(catalog, visitor, members, member_values(catalog, visitor, members), k) is Ok,
    ensures
        spec_visit_map(catalog, visitor, JsonView::Object(members)) == Err::<
            crate::message::MessageView,
            DecodeErrorView,
        >(DecodeErrorView::UnknownField(members[k].key)),
{
    let values = member_values(catalog, visitor, members);
    lemma_scan_error_stays(catalog, visitor, members, values, k + 1, members.len() as int);
}

/// Without the member at `k`, the members up to `n` leave the fields as the
/// members up to `n + 1` do with it, where its key belongs to no field and
/// unknown keys are ignored.
proof fn lemma_scan_without(
    catalog: Catalog,
    visitor: StructVisitor,
    members: Seq<MemberView>,
    k: int,
    n: int,
)
    requires
        0 <= k < members.len(),
        0 <= n < members.len(),
        dispatch(catalog, visitor.fields@, members[k].key) is None,
        visitor.ignore_unknown_fields,
    ensures
        scan(
            catalog,
            visitor,
            members.remove(k),
            member_values(catalog, visitor, members.remove(k)),
            n,
        ) == scan(
            catalog,
            visitor,
            members,
            member_values(catalog, visitor, members),
            if n <= k {
                n
            } else {
                n + 1
            },
        ),
    decreases n,
{
    let rest = members.remove(k);
    let values = member_values(catalog, visitor, members);
    let others = member_values(catalog, visitor, rest);
    if n > 0 {
        lemma_scan_without(catalog, visitor, members, k, n - 1);
        if n - 1 < k {
            assert(rest[n - 1] == members[n - 1]);
            assert(others[n - 1] == values[n - 1]);
        } else {
            assert(rest[n - 1] == members[n]);
            assert(others[n - 1] == values[n]);
            if n - 1 == k {
                assert(scan(catalog, visitor, members, values, k + 1) == scan(
                    catalog,
                    visitor,
                    members,
                    values,
                    k,
                ));
            }
        }
    }
}

/// A key that belongs to no field is skipped with its value, where unknown
/// keys are ignored: the object is read as it is without that member.
pub proof fn law_unknown_key_ignored(
    catalog: Catalog,
    visitor: StructVisitor,
    members: Seq<MemberView>,
    k: int,
)
    requires
        0 <= k < members.len(),
        dispatch(catalog, visitor.fields@, members[k].key) is None,
        visitor.ignore_unknown_fields,
    ensures
        spec_visit_map(catalog, visitor, JsonView::Object(members)) == spec_visit_map(
            catalog,
            visitor,
            JsonView::Object(members.remove(k)),
        ),
{
    lemma_scan_without(catalog, visitor, members, k, members.len() - 1);
}

/// Whether the field at `slot` is required and not given.
pub open spec fn missing(
    catalog: Catalog,
    visitor: StructVisitor,
    members: Seq<MemberView>,
    slot: int,
) -> bool {
    visitor.fields@[slot].tokens.narrowing_expr is Required && !given(
        catalog,
        visitor,
        members,
        members.len() as int,
        slot,
    )
}

/// The first required field that no member gives fails the object with
/// `MissingField`, where no member is in error.
pub proof fn law_missing_field_strict(
    catalog: Catalog,
    visitor: StructVisitor,
    members: Seq<MemberView>,
    slot: int,
)
    requires
        0 <= slot < visitor.fields@.len(),
        scan(
            catalog,
            visitor,
            members,
            member_values(catalog, visitor, members),
            members.len() as int,
        ) is Ok,
        missing(catalog, visitor, members, slot),
        forall|j: int| 0 <= j < slot ==> !missing(catalog, visitor, members, j),
    ensures
        spec_visit_map(catalog, visitor, JsonView::Object(members)) == Err::<
            crate::message::MessageView,
            DecodeErrorView,
        >(DecodeErrorView::MissingField(visitor.fields@[slot].name@)),
{
    let values = member_values(catalog, visitor, members);
    let len = members.len() as int;
    let slots = scan(catalog, visitor, members, values, len)->Ok_0;
    let narrows = narrowings(catalog, visitor, slots);
    lemma_scan_len(catalog, visitor, members, values, len);
    assert forall|j: int| 0 <= j < slot implies (#[trigger] narrows[j]) is Ok by {
        lemma_scan_given(catalog, visitor, members, len, j);
        assert(!missing(catalog, visitor, members, j));
    }
    lemma_gather_all(narrows, slot);
    lemma_scan_given(catalog, visitor, members, len, slot);
    assert(narrows[slot] is Err);
    lemma_gather_error_stays(narrows, slot + 1, visitor.fields@.len() as int);
}

/// Where no field is required, or every required field is given, and no
/// member is in error, the object is read, and a field that takes a default
/// and is not given holds that default.
pub proof fn law_missing_field_default(
    catalog: Catalog,
    visitor: StructVisitor,
    members: Seq<MemberView>,
)
    requires
        scan(
            catalog,
            visitor,
            members,
            member_values(catalog, visitor, members),
            members.len() as int,
        ) is Ok,
        forall|j: int| 0 <= j < visitor.fields@.len() ==> !missing(catalog, visitor, members, j),
    ensures
        spec_visit_map(catalog, visitor, JsonView::Object(members)) matches Ok(message)
            && message.fields.len() == visitor.fields@.len() && forall|i: int|
            0 <= i < visitor.fields@.len() && !given(
                catalog,
                visitor,
                members,
                members.len() as int,
                i,
            ) ==> (visitor.fields@[i].tokens.narrowing_expr matches Narrowing::Default(default)
                ==> #[trigger] message.fields[i] == FieldValueView::Single(
                spec_default_value(catalog, default, visitor.fields@[i].tokens.value_getter_expr),
            )),
{
    let values = member_values(catalog, visitor, members);
    let len = members.len() as int;
    let count = visitor.fields@.len() as int;
    let slots = scan(catalog, visitor, members, values, len)->Ok_0;
    let narrows = narrowings(catalog, visitor, slots);
    lemma_scan_len(catalog, visitor, members, values, len);
    assert forall|j: int| 0 <= j < count implies (#[trigger] narrows[j]) is Ok by {
        lemma_scan_given(catalog, visitor, members, len, j);
        assert(!missing(catalog, visitor, members, j));
    }
    lemma_gather_all(narrows, count);
    lemma_gather_ok(narrows, count);
    let fields = gather(narrows, count)->Ok_0;
    assert forall|i: int|
        0 <= i < count && !given(catalog, visitor, members, len, i) implies (
    visitor.fields@[i].tokens.narrowing_expr matches Narrowing::Default(default)
        ==> #[trigger] fields[i] == FieldValueView::Single(
        spec_default_value(catalog, default, visitor.fields@[i].tokens.value_getter_expr),
    )) by {
        lemma_scan_given(catalog, visitor, members, len, i);
        assert(narrows[i] == Ok::<FieldValueView, DecodeErrorView>(fields[i]));
    }
}

/// A message that is written is read back as itself: decoding undoes
/// encoding.
pub proof fn law_decode_of_encode(catalog: Catalog, name: Seq<char>, message: MessageView)
    requires
        catalog.wf(),
        message_reads_back(message),
        spec_encode(catalog, name, message) is Ok,
    ensures
        spec_decode(catalog, name, spec_encode(catalog, name, message)->Ok_0) == Ok::<
            MessageView,
            DecodeErrorView,
        >(message),
{
    lemma_tables_together(catalog, name);
    lemma_message_round_trip(
        catalog,
        catalog.spec_visitor(name)->0,
        catalog.spec_serializer(name)->0,
        message,
    );
}

/// A JSON value in the form in which messages are written is read as a
/// message that is written as that same value: encoding undoes decoding.
pub proof fn law_encode_of_decode(catalog: Catalog, name: Seq<char>, json: JsonView)
    requires
        catalog.wf(),
        written_message(catalog, name, json),
    ensures
        spec_decode(catalog, name, json) matches Ok(message) && spec_encode(
            catalog,
            name,
            message,
        ) == Ok::<JsonView, EncodeError>(json),
{
    lemma_tables_together(catalog, name);
    lemma_written_object(
        catalog,
        catalog.spec_visitor(name)->0,
        catalog.spec_serializer(name)->0,
        json,
    );
}

/// A JSON object in the declared shape of a message, with its members in
/// any order and its optional fields given, `null` or left out, is read as
/// a message that is written with the same values: the two differ only in
/// the order of their members and in members that are `null`, at every
/// depth.
pub proof fn law_encode_of_decode_in_any_order(catalog: Catalog, name: Seq<char>, json: JsonView)
    requires
        catalog.wf(),
        shaped_value(catalog, ProtobufType::Message, name, json),
    ensures
        spec_decode(catalog, name, json) is Ok,
        spec_encode(catalog, name, spec_decode(catalog, name, json)->Ok_0) is Ok,
        same_but_null(
            json,
            spec_encode(catalog, name, spec_decode(catalog, name, json)->Ok_0)->Ok_0,
        ),
{
    lemma_tables_together(catalog, name);
    lemma_shaped_object(
        catalog,
        catalog.spec_visitor(name)->0,
        catalog.spec_serializer(name)->0,
        json,
    );
}

/// The form in which a message is written is one of its declared shapes.
pub proof fn law_written_is_shaped(catalog: Catalog, name: Seq<char>, json: JsonView)
    requires
        written_message(catalog, name, json),
    ensures
        shaped_value(catalog, ProtobufType::Message, name, json),
{
    lemma_written_value_is_shaped(catalog, ProtobufType::Message, name, json);
}

/// What a message is written as is in the form in which messages are
/// written.
pub proof fn law_encoded_is_written(catalog: Catalog, name: Seq<char>, message: MessageView)
    requires
        catalog.wf(),
        message_reads_back(message),
        spec_encode(catalog, name, message) is Ok,
    ensures
        written_message(catalog, name, spec_encode(catalog, name, message)->Ok_0),
{
    lemma_tables_together(catalog, name);
    lemma_value_is_written(
        catalog,
        ProtobufType::Message,
        name,
        crate::message::ValueView::Message(message),
    );
}

/// A message that was decoded can be encoded.
pub proof fn law_decoded_is_encoded(catalog: Catalog, name: Seq<char>, json: JsonView)
    requires
        catalog.wf(),
        spec_decode(catalog, name, json) is Ok,
    ensures
        spec_encode(catalog, name, spec_decode(catalog, name, json)->Ok_0) is Ok,
{
    lemma_tables_together(catalog, name);
    lemma_read_message_is_written(
        catalog,
        catalog.spec_visitor(name)->0,
        catalog.spec_serializer(name)->0,
        json,
    );
}

/// Decoding, encoding and decoding again gives what decoding gave.
pub proof fn law_decode_is_idempotent(catalog: Catalog, name: Seq<char>, json: JsonView)
    requires
        catalog.wf(),
        message_reads_back(spec_decode(catalog, name, json)->Ok_0),
        spec_decode(catalog, name, json) is Ok,
    ensures
        spec_encode(catalog, name, spec_decode(catalog, name, json)->Ok_0) is Ok,
        spec_decode(
            catalog,
            name,
            spec_encode(catalog, name, spec_decode(catalog, name, json)->Ok_0)->Ok_0,
        ) == spec_decode(catalog, name, json),
{
    law_decoded_is_encoded(catalog, name, json);
    law_decode_of_encode(catalog, name, spec_decode(catalog, name, json)->Ok_0);
}

/// The active variant of a oneof that is written alone is read back as
/// itself.
pub proof fn law_oneof_round_trip(catalog: Catalog, registry: OneofRegistry, active: OneofValueView)
    requires
        catalog.wf(),
        value_reads_back(active.value),
        distinct_names(registry),
        spec_encode_oneof(catalog, registry, active) is Ok,
    ensures
        spec_decode_oneof(catalog, registry, spec_encode_oneof(catalog, registry, active)->Ok_0)
            == Ok::<OneofValueView, DecodeErrorView>(active),
{
    lemma_variant_round_trip(catalog, registry, active);
}

/// The decoding table and the encoding table that are built from one
/// declaration, under the same answers to whether its literals are paths,
/// are those of one message.
pub proof fn law_tables_of_one_declaration(
    visitor: StructVisitor,
    serializer: StructSerializer,
    meta: DeriveMeta,
    ident: Ident,
    fields: Seq<Field>,
    answers: Seq<Seq<bool>>,
)
    requires
        visits(visitor, meta, ident, fields, answers),
        serializer.name == ident.name,
        gather(field_serializers(fields, answers), fields.len() as int) == Ok::<
            Seq<FieldSerializer>,
            crate::context::SyntaxError,
        >(serializer.fields@),
    ensures
        coherent(visitor, serializer),
{
    lemma_gather_ok(field_serializers(fields, answers), fields.len() as int);
    assert forall|i: int| 0 <= i < visitor.fields@.len() implies paired(
        #[trigger] visitor.fields@[i],
        serializer.fields@[i],
    ) by {
        assert(field_serializers(fields, answers)[i] == field_serializer(
            fields[i],
            crate::attr::ProstAttr::answers_of(answers, i),
        ));
        assert(field_serializers(fields, answers)[i] == Ok::<
            FieldSerializer,
            crate::context::SyntaxError,
        >(serializer.fields@[i]));
    }
}

/// Whether the field at `slot` is an optional field, which is absent where
/// it is not given.
pub open spec fn optional_field(visitor: StructVisitor, slot: int) -> bool {
    let field = visitor.fields@[slot];
    &&& 0 <= slot < visitor.fields@.len()
    &&& !(field.tokens.value_getter_expr.ty is OneOf)
    &&& field.tokens.value_getter_expr.modifier == FieldModifier::Optional
    &&& field.tokens.narrowing_expr is Absent
}

/// Without the `null` member at `k`, the members up to `n` leave the fields
/// as the members up to `n + 1` do with it, but for its own field, which
/// they leave empty.
proof fn lemma_scan_without_null(
    catalog: Catalog,
    visitor: StructVisitor,
    members: Seq<MemberView>,
    k: int,
    slot: int,
    n: int,
)
    requires
        0 <= k < members.len(),
        k <= n < members.len(),
        members[k].value is Null,
        dispatch(catalog, visitor.fields@, members[k].key) == Some(slot),
        optional_field(visitor, slot),
        scan(catalog, visitor, members, member_values(catalog, visitor, members), n + 1) is Ok,
    ensures
        scan(
            catalog,
            visitor,
            members.remove(k),
            member_values(catalog, visitor, members.remove(k)),
            n,
        ) == Ok::<Seq<Option<FieldValueView>>, DecodeErrorView>(
            scan(
                catalog,
                visitor,
                members,
                member_values(catalog, visitor, members),
                n + 1,
            )->Ok_0.update(slot, None),
        ),
        scan(
            catalog,
            visitor,
            members,
            member_values(catalog, visitor, members),
            n + 1,
        )->Ok_0[slot] == Some(FieldValueView::Optional(None)),
    decreases n,
{
    let rest = members.remove(k);
    let values = member_values(catalog, visitor, members);
    let others = member_values(catalog, visitor, rest);
    lemma_scan_ok_before(catalog, visitor, members, n, n + 1);
    lemma_scan_len(catalog, visitor, members, values, n);
    let before = scan(catalog, visitor, members, values, n)->Ok_0;
    let after = scan(catalog, visitor, members, values, n + 1)->Ok_0;
    if n == k {
        lemma_scan_same_before(catalog, visitor, members, k, k);
        assert(values[k] == member_value(catalog, visitor, members[k]));
        assert(before =~= after.update(slot, None));
    } else {
        lemma_scan_without_null(catalog, visitor, members, k, slot, n - 1);
        assert(rest[n - 1] == members[n]);
        assert(others[n - 1] == values[n]);
        lemma_dispatch_bounds(catalog, visitor.fields@, members[n].key);
        match dispatch(catalog, visitor.fields@, members[n].key) {
            Some(other) => {
                assert(after =~= before.update(other, Some(values[n]->Ok_0)));
                assert(before.update(slot, None).update(other, Some(values[n]->Ok_0))
                    =~= after.update(slot, None));
            },
            None => {},
        }
    }
}

/// The members before the one at `k` leave the fields as they do without
/// it.
proof fn lemma_scan_same_before(
    catalog: Catalog,
    visitor: StructVisitor,
    members: Seq<MemberView>,
    k: int,
    n: int,
)
    requires
        0 <= n <= k < members.len(),
    ensures
        scan(
            catalog,
            visitor,
            members.remove(k),
            member_values(catalog, visitor, members.remove(k)),
            n,
        ) == scan(catalog, visitor, members, member_values(catalog, visitor, members), n),
    decreases n,
{
    let rest = members.remove(k);
    let values = member_values(catalog, visitor, members);
    let others = member_values(catalog, visitor, rest);
    if n > 0 {
        lemma_scan_same_before(catalog, visitor, members, k, n - 1);
        assert(rest[n - 1] == members[n - 1]);
        assert(others[n - 1] == values[n - 1]);
    }
}

/// A `null` under the key of an optional field says no more than no
/// member at all: an object that is read is read the same without it.
pub proof fn law_null_member_is_dropped(
    catalog: Catalog,
    visitor: StructVisitor,
    members: Seq<MemberView>,
    k: int,
)
    requires
        0 <= k < members.len(),
        members[k].value is Null,
        dispatch(catalog, visitor.fields@, members[k].key) matches Some(slot) && optional_field(
            visitor,
            slot,
        ),
        spec_visit_map(catalog, visitor, JsonView::Object(members)) is Ok,
    ensures
        spec_visit_map(catalog, visitor, JsonView::Object(members.remove(k))) == spec_visit_map(
            catalog,
            visitor,
            JsonView::Object(members),
        ),
{
    let slot = dispatch(catalog, visitor.fields@, members[k].key)->0;
    let values = member_values(catalog, visitor, members);
    let rest = members.remove(k);
    let len = members.len() as int;
    let count = visitor.fields@.len() as int;
    lemma_scan_without_null(catalog, visitor, members, k, slot, len - 1);
    lemma_scan_len(catalog, visitor, members, values, len);
    let with = scan(catalog, visitor, members, values, len)->Ok_0;
    let without = with.update(slot, None);
    assert(narrowings(catalog, visitor, with) =~= narrowings(catalog, visitor, without));
}

/// The policy switches of a type decide what its fields do with a value of
/// the wrong shape and with no value at all: a field that is no oneof has a
/// fallback exactly where type errors are omitted, a oneof has none, and a
/// singular field that is no oneof is required exactly where missing fields
/// get no default.
pub proof fn law_policy_switches(
    meta: DeriveMeta,
    ty: ProtobufType,
    modifier: FieldModifier,
    message: String,
)
    ensures
        ({
            let tokens = (FieldVisitorTokenGenerator { meta }).spec_expand(ty, modifier, message);
            let singular = !(ty is OneOf) && modifier == FieldModifier::Singular;
            &&& tokens.value_getter_expr.fallback is Some <==> meta.omit_type_errors && !(ty is OneOf)
            &&& tokens.narrowing_expr is Required <==> singular
                && !meta.use_default_for_missing_fields
            &&& tokens.narrowing_expr is Default <==> singular
                && meta.use_default_for_missing_fields
        }),
{
}

/// Only a `TypeMismatch` is ever omitted: every other error of a value is
/// the error of its field, whatever the policy.
pub proof fn law_only_type_mismatch_is_omitted(
    catalog: Catalog,
    getter: ValueGetter,
    key: Seq<char>,
    json: JsonView,
)
    ensures
        spec_raw_value(catalog, getter, key, json) is Err && spec_raw_value(
            catalog,
            getter,
            key,
            json,
        )->Err_0 != DecodeErrorView::TypeMismatch ==> spec_get_value(catalog, getter, key, json)
            == spec_raw_value(catalog, getter, key, json),
        spec_raw_value(catalog, getter, key, json) is Ok ==> spec_get_value(
            catalog,
            getter,
            key,
            json,
        ) == spec_raw_value(catalog, getter, key, json),
{
}

/// An error of a oneof is never omitted, whatever fallback its getter
/// holds.
pub proof fn law_oneof_is_never_omitted(
    catalog: Catalog,
    getter: ValueGetter,
    key: Seq<char>,
    json: JsonView,
)
    requires
        getter.ty is OneOf,
    ensures
        spec_get_value(catalog, getter, key, json) == spec_raw_value(catalog, getter, key, json),
{
}

} // verus!
