//! Reading and writing an object whose members stand in any order: what is
//! written of what was read holds the same values as the object itself, but
//! for the members that are `null`.

use vstd::prelude::*;
use crate::attr::{FieldModifier, ProtobufType};
use crate::bytes::{base64_decoded, base64_encoded};
use crate::catalog::{
    coherent,
    lemma_named,
    lemma_tables_together,
    lemma_valued,
    names_of,
    paired,
    valued_from,
    Catalog,
};
use crate::decode::{
    answers,
    dispatch,
    item_values,
    lemma_dispatch_bounds,
    lemma_scan_len,
    member_value,
    member_values,
    narrowings,
    scan,
    spec_decode_value,
    spec_fits,
    spec_get_value,
    spec_raw_value,
    spec_visit_map,
};
use crate::deserialize::field::ValueGetter;
use crate::deserialize::structure::{FieldVisitor, StructVisitor};
use crate::encode::{
    field_members,
    item_jsons,
    present,
    spec_encode_field,
    spec_encode_message,
    spec_encode_value,
};
use crate::gather::lemma_gather_exact;
use crate::json::{JsonView, MemberView};
use crate::laws::given;
use crate::message::{DecodeErrorView, EncodeError, FieldValueView, OneofValueView, ValueView};
use crate::round_trip::lemma_same_type_writes;
use crate::serialize::field::FieldSerializer;
use crate::serialize::structure::StructSerializer;
use crate::text::position;
use crate::written::{written_field, written_members, written_value};

verus! {

/// Whether `other` holds every value of `json`, but for the members that
/// are `null`: an object may hold its members in another order and further
/// ones; an array holds the same items in the same order; any other value is
/// the same.
pub open spec fn covered(json: JsonView, other: JsonView) -> bool
    decreases json,
{
    match json {
        JsonView::Array(items) => other matches JsonView::Array(others) && items_covered(
            items,
            others,
        ),
        JsonView::Object(members) => other matches JsonView::Object(others) && members_covered(
            members,
            others,
        ),
        _ => json == other,
    }
}

/// Whether `others` holds, item by item, every value of `items`.
pub open spec fn items_covered(items: Seq<JsonView>, others: Seq<JsonView>) -> bool
    decreases items,
{
    items.len() == others.len() && forall|i: int|
        0 <= i < items.len() ==> covered(#[trigger] items[i], others[i])
}

/// Whether `others` holds every one of `members` that is not `null`.
pub open spec fn members_covered(members: Seq<MemberView>, others: Seq<MemberView>) -> bool
    decreases members,
{
    forall|i: int| 0 <= i < members.len() ==> member_covered(#[trigger] members[i], others)
}

/// Whether `member` is `null`, or `others` holds a member of the same key
/// with every value of it.
pub open spec fn member_covered(member: MemberView, others: Seq<MemberView>) -> bool
    decreases member,
{
    member.value is Null || exists|j: int|
        0 <= j < others.len() && (#[trigger] others[j]).key == member.key && covered(
            member.value,
            others[j].value,
        )
}

/// Whether the two hold the same values once every member that is `null`
/// is taken away, at every depth, whatever the order of their members.
pub open spec fn same_but_null(json: JsonView, other: JsonView) -> bool {
    covered(json, other) && covered(other, json)
}

/// Whether `json` is a value of the type `ty` in its declared shape: as it
/// is written, but that the members of a message may stand in any order and
/// an optional field may be left out.
pub open spec fn shaped_value(
    catalog: Catalog,
    ty: ProtobufType,
    message: Seq<char>,
    json: JsonView,
) -> bool
    decreases json, 1int,
{
    match ty {
        ProtobufType::Bool => json is Bool,
        ProtobufType::String => json is String,
        ProtobufType::Bytes(_) => json matches JsonView::String(s) && base64_decoded(s) matches Some(
            bytes,
        ) && base64_encoded(bytes) == s,
        ProtobufType::Enumeration(path) => catalog.spec_enumeration(path@) matches Some(registry)
            && json matches JsonView::String(s) && registry.spec_value_for(s) is Some,
        ProtobufType::Message => catalog.spec_visitor(message) matches Some(visitor)
            && json matches JsonView::Object(members) && shaped_object(catalog, visitor, members),
        ProtobufType::OneOf(_) => false,
        _ => json matches JsonView::Number(n) && spec_fits(ty, n),
    }
}

/// Whether `json` is what a field read by `getter` holds, in its declared
/// shape.
pub open spec fn shaped_field(catalog: Catalog, getter: ValueGetter, json: JsonView) -> bool
    decreases json, 2int,
{
    match getter.modifier {
        FieldModifier::Singular => shaped_value(catalog, getter.ty, getter.message@, json),
        FieldModifier::Optional => json is Null || shaped_value(
            catalog,
            getter.ty,
            getter.message@,
            json,
        ),
        FieldModifier::Repeated => json matches JsonView::Array(items) && forall|i: int|
            0 <= i < items.len() ==> shaped_value(
                catalog,
                getter.ty,
                getter.message@,
                #[trigger] items[i],
            ),
    }
}

/// Whether `member` holds a value of `field` in its declared shape: for a
/// oneof the payload of the variant that the key names.
pub open spec fn shaped_member(catalog: Catalog, field: FieldVisitor, member: MemberView) -> bool
    decreases member, 3int,
{
    match field.tokens.value_getter_expr.ty {
        ProtobufType::OneOf(path) => catalog.spec_oneof(path@) matches Some(registry) && position(
            names_of(registry.variants@),
            member.key,
        ) matches Some(i) && shaped_value(
            catalog,
            registry.variants@[i].ty,
            registry.variants@[i].message@,
            member.value,
        ),
        _ => shaped_field(catalog, field.tokens.value_getter_expr, member.value),
    }
}

/// Whether the field must have a member: it is no oneof and not optional.
pub open spec fn needs_member(field: FieldVisitor) -> bool {
    !(field.tokens.value_getter_expr.ty is OneOf) && field.tokens.value_getter_expr.modifier
        != FieldModifier::Optional
}

/// Whether every one of the members belongs to a field and holds a value
/// of that field in its declared shape.
pub open spec fn members_shaped(
    catalog: Catalog,
    visitor: StructVisitor,
    members: Seq<MemberView>,
) -> bool
    decreases members, 0int,
{
    forall|k: int|
        0 <= k < members.len() ==> (dispatch(
            catalog,
            visitor.fields@,
            (#[trigger] members[k]).key,
        ) matches Some(slot) && 0 <= slot < visitor.fields@.len() && shaped_member(
            catalog,
            visitor.fields@[slot],
            members[k],
        ))
}

/// Whether the members are those of a message in its declared shape, in
/// any order: every key belongs to a field, no field is given twice, every
/// singular and every repeated field is given, and every value is of the
/// shape of its field.
pub open spec fn shaped_object(
    catalog: Catalog,
    visitor: StructVisitor,
    members: Seq<MemberView>,
) -> bool
    decreases members, 1int,
{
    &&& members_shaped(catalog, visitor, members)
    &&& forall|a: int, b: int|
        0 <= a < b < members.len() ==> dispatch(
            catalog,
            visitor.fields@,
            (#[trigger] members[a]).key,
        ) != dispatch(catalog, visitor.fields@, (#[trigger] members[b]).key)
    &&& forall|slot: int|
        0 <= slot < visitor.fields@.len() && needs_member(#[trigger] visitor.fields@[slot])
            ==> given(catalog, visitor, members, members.len() as int, slot)
}

/// The member among the first `n` that gives the field at `slot`, if one
/// does: the last of them.
pub open spec fn member_for(
    catalog: Catalog,
    visitor: StructVisitor,
    members: Seq<MemberView>,
    slot: int,
    n: int,
) -> Option<int>
    decreases n,
{
    if n <= 0 || n > members.len() {
        None
    } else if dispatch(catalog, visitor.fields@, members[n - 1].key) == Some(slot) {
        Some(n - 1)
    } else {
        member_for(catalog, visitor, members, slot, n - 1)
    }
}

/// `member_for` finds a member exactly where one gives the field.
pub proof fn lemma_member_for(
    catalog: Catalog,
    visitor: StructVisitor,
    members: Seq<MemberView>,
    slot: int,
    n: int,
)
    requires
        0 <= n <= members.len(),
    ensures
        match member_for(catalog, visitor, members, slot, n) {
            Some(k) => 0 <= k < n && dispatch(catalog, visitor.fields@, members[k].key) == Some(
                slot,
            ),
            None => forall|k: int|
                0 <= k < n ==> dispatch(catalog, visitor.fields@, (#[trigger] members[k]).key)
                    != Some(slot),
        },
    decreases n,
{
    if n > 0 {
        lemma_member_for(catalog, visitor, members, slot, n - 1);
    }
}

/// A value in its declared shape is read, what was read is written, and
/// what is written holds the same values.
pub proof fn lemma_shaped_value(
    catalog: Catalog,
    ty: ProtobufType,
    message: Seq<char>,
    json: JsonView,
)
    requires
        catalog.wf(),
        shaped_value(catalog, ty, message, json),
    ensures
        spec_decode_value(catalog, ty, message, json) is Ok,
        spec_encode_value(
            catalog,
            ty,
            message,
            spec_decode_value(catalog, ty, message, json)->Ok_0,
        ) is Ok,
        same_but_null(
            json,
            spec_encode_value(
                catalog,
                ty,
                message,
                spec_decode_value(catalog, ty, message, json)->Ok_0,
            )->Ok_0,
        ),
    decreases json, 1int, 0int,
{
    match ty {
        ProtobufType::Enumeration(path) => {
            lemma_named(catalog.enumerations@, path@);
            let registry = catalog.spec_enumeration(path@)->0;
            let text = json->String_0;
            lemma_named(registry.variants@, text);
            let i = position(names_of(registry.variants@), text)->0;
            let value = registry.variants@[i].value;
            lemma_valued(registry.variants@, value, 0);
            let j = valued_from(registry.variants@, value, 0)->0;
            assert(i == j);
        },
        ProtobufType::Message => {
            lemma_tables_together(catalog, message);
            lemma_shaped_object(
                catalog,
                catalog.spec_visitor(message)->0,
                catalog.spec_serializer(message)->0,
                json,
            );
        },
        _ => {},
    }
}

/// A member in its declared shape gives its field a value that is written
/// as a member of the same key and the same values.
pub proof fn lemma_shaped_member(
    catalog: Catalog,
    field: FieldVisitor,
    serializer: FieldSerializer,
    member: MemberView,
)
    requires
        catalog.wf(),
        paired(field, serializer),
        answers(catalog, field, member.key),
        shaped_member(catalog, field, member),
    ensures
        spec_get_value(catalog, field.tokens.value_getter_expr, member.key, member.value) is Ok,
        ({
            let given = spec_get_value(
                catalog,
                field.tokens.value_getter_expr,
                member.key,
                member.value,
            )->Ok_0;
            &&& spec_encode_field(catalog, serializer, given) matches Ok(Some(written))
                && written.key == member.key && same_but_null(member.value, written.value)
            &&& member.value is Null ==> given == FieldValueView::Optional(None)
        }),
    decreases member, 3int, 0int,
{
    let getter = field.tokens.value_getter_expr;
    let json = member.value;
    match serializer {
        FieldSerializer::Flatten { oneof } => {
            lemma_named(catalog.oneofs@, oneof@);
            let registry = catalog.spec_oneof(oneof@)->0;
            lemma_named(registry.variants@, member.key);
            let i = position(names_of(registry.variants@), member.key)->0;
            lemma_shaped_value(
                catalog,
                registry.variants@[i].ty,
                registry.variants@[i].message@,
                json,
            );
            let value = spec_decode_value(
                catalog,
                registry.variants@[i].ty,
                registry.variants@[i].message@,
                json,
            )->Ok_0;
            let active = OneofValueView { variant: i, value };
            assert(spec_raw_value(catalog, getter, member.key, json) == Ok::<
                FieldValueView,
                DecodeErrorView,
            >(FieldValueView::Oneof(Some(active))));
        },
        FieldSerializer::Emit { name, ty, modifier, message } => {
            match modifier {
                FieldModifier::Repeated => {
                    let items = json->Array_0;
                    let results = item_values(catalog, getter.ty, getter.message@, items);
                    let values = Seq::new(items.len(), |i: int| results[i]->Ok_0);
                    let rewritten = item_jsons(catalog, ty, message@, values);
                    let others = Seq::new(items.len(), |i: int| rewritten[i]->Ok_0);
                    assert forall|i: int| 0 <= i < items.len() implies #[trigger] results[i]
                        == Ok::<ValueView, DecodeErrorView>(values[i]) && rewritten[i] == Ok::<
                        JsonView,
                        EncodeError,
                    >(others[i]) && same_but_null(items[i], others[i]) by {
                        lemma_shaped_value(catalog, getter.ty, getter.message@, items[i]);
                        lemma_same_type_writes(catalog, getter.ty, ty, message@, values[i]);
                    }
                    lemma_gather_exact(results, values, items.len() as int);
                    assert(values.subrange(0, items.len() as int) =~= values);
                    lemma_gather_exact(rewritten, others, items.len() as int);
                    assert(others.subrange(0, items.len() as int) =~= others);
                    assert(spec_raw_value(catalog, getter, member.key, json) == Ok::<
                        FieldValueView,
                        DecodeErrorView,
                    >(FieldValueView::Repeated(values)));
                    assert(items_covered(items, others));
                    assert(items_covered(others, items));
                },
                _ => {
                    if !(json is Null) || modifier == FieldModifier::Singular {
                        lemma_shaped_value(catalog, getter.ty, getter.message@, json);
                        let value = spec_decode_value(
                            catalog,
                            getter.ty,
                            getter.message@,
                            json,
                        )->Ok_0;
                        lemma_same_type_writes(catalog, getter.ty, ty, message@, value);
                    }
                    assert(spec_raw_value(catalog, getter, member.key, json) is Ok);
                },
            }
        },
    }
}

/// What the fields hold after the first `n` members of an object in its
/// declared shape: each what its one member gave it, and nothing where no
/// member gave it anything.
pub proof fn lemma_shaped_scan(
    catalog: Catalog,
    visitor: StructVisitor,
    serializer: StructSerializer,
    members: Seq<MemberView>,
    n: int,
)
    requires
        catalog.wf(),
        coherent(visitor, serializer),
        shaped_object(catalog, visitor, members),
        0 <= n <= members.len(),
    ensures
        scan(catalog, visitor, members, member_values(catalog, visitor, members), n) is Ok,
        ({
            let values = member_values(catalog, visitor, members);
            let slots = scan(catalog, visitor, members, values, n)->Ok_0;
            &&& slots.len() == visitor.fields@.len()
            &&& forall|i: int|
                0 <= i < slots.len() ==> #[trigger] slots[i] == match member_for(
                    catalog,
                    visitor,
                    members,
                    i,
                    n,
                ) {
                    Some(k) => Some(values[k]->Ok_0),
                    None => None,
                }
            &&& forall|k: int| 0 <= k < n ==> (#[trigger] values[k]) is Ok
        }),
    decreases members, 0int, n,
{
    let values = member_values(catalog, visitor, members);
    lemma_scan_len(catalog, visitor, members, values, n);
    if n > 0 {
        lemma_shaped_scan(catalog, visitor, serializer, members, n - 1);
        lemma_scan_len(catalog, visitor, members, values, n - 1);
        let member = members[n - 1];
        lemma_dispatch_bounds(catalog, visitor.fields@, member.key);
        assert(members_shaped(catalog, visitor, members));
        let slot = dispatch(catalog, visitor.fields@, member.key)->0;
        assert(paired(visitor.fields@[slot], serializer.fields@[slot]));
        lemma_shaped_member(catalog, visitor.fields@[slot], serializer.fields@[slot], member);
        assert(values[n - 1] == member_value(catalog, visitor, member));
        lemma_member_for(catalog, visitor, members, slot, n - 1);
        if member_for(catalog, visitor, members, slot, n - 1) is Some {
            let k = member_for(catalog, visitor, members, slot, n - 1)->0;
            assert(dispatch(catalog, visitor.fields@, members[k].key) != dispatch(
                catalog,
                visitor.fields@,
                members[n - 1].key,
            ));
        }
    }
}

/// A member that is written is among the members that are written.
pub proof fn lemma_present_has(written: Seq<Option<MemberView>>, i: int, n: int)
    requires
        0 <= i < n <= written.len(),
        written[i] is Some,
    ensures
        exists|j: int|
            0 <= j < present(written, n).len() && #[trigger] present(written, n)[j]
                == written[i]->0,
    decreases n,
{
    if i == n - 1 {
        let j = present(written, n).len() - 1;
        assert(present(written, n)[j] == written[i]->0);
    } else {
        lemma_present_has(written, i, n - 1);
        let j = choose|j: int|
            0 <= j < present(written, n - 1).len() && #[trigger] present(written, n - 1)[j]
                == written[i]->0;
        assert(present(written, n)[j] == written[i]->0);
    }
}

/// A member among those that are written is what some field is written
/// as.
pub proof fn lemma_present_from(written: Seq<Option<MemberView>>, j: int, n: int)
    requires
        0 <= n <= written.len(),
        0 <= j < present(written, n).len(),
    ensures
        exists|i: int|
            0 <= i < n && #[trigger] written[i] == Some(present(written, n)[j]),
    decreases n,
{
    if n > 0 {
        if written[n - 1] is Some && j == present(written, n).len() - 1 {
            assert(written[n - 1] == Some(present(written, n)[j]));
        } else {
            lemma_present_from(written, j, n - 1);
            let i = choose|i: int|
                0 <= i < n - 1 && #[trigger] written[i] == Some(present(written, n - 1)[j]);
            assert(written[i] == Some(present(written, n)[j]));
        }
    }
}

/// An object in its declared shape is read, what was read is written, and
/// what is written holds the same values.
pub proof fn lemma_shaped_object(
    catalog: Catalog,
    visitor: StructVisitor,
    serializer: StructSerializer,
    json: JsonView,
)
    requires
        catalog.wf(),
        coherent(visitor, serializer),
        json matches JsonView::Object(members) && shaped_object(catalog, visitor, members),
    ensures
        spec_visit_map(catalog, visitor, json) is Ok,
        spec_encode_message(catalog, serializer, spec_visit_map(catalog, visitor, json)->Ok_0) is Ok,
        same_but_null(
            json,
            spec_encode_message(
                catalog,
                serializer,
                spec_visit_map(catalog, visitor, json)->Ok_0,
            )->Ok_0,
        ),
    decreases json, 0int, 0int,
{
    let members = json->Object_0;
    let len = members.len() as int;
    let count = visitor.fields@.len() as int;
    let values = member_values(catalog, visitor, members);
    lemma_shaped_scan(catalog, visitor, serializer, members, len);
    let slots = scan(catalog, visitor, members, values, len)->Ok_0;
    let narrows = narrowings(catalog, visitor, slots);
    let fields = Seq::new(count as nat, |i: int| narrows[i]->Ok_0);
    let results = field_members(catalog, serializer, fields);
    let written = Seq::new(count as nat, |i: int| results[i]->Ok_0);
    assert(members_shaped(catalog, visitor, members));
    assert forall|i: int| 0 <= i < count implies #[trigger] narrows[i] == Ok::<
        FieldValueView,
        DecodeErrorView,
    >(fields[i]) && results[i] == Ok::<Option<MemberView>, EncodeError>(written[i])
        && match member_for(catalog, visitor, members, i, len) {
        Some(k) => written[i] matches Some(member) && member.key == members[k].key
            && same_but_null(members[k].value, member.value),
        None => written[i] matches Some(member) ==> member.value is Null,
    } by {
        assert(paired(visitor.fields@[i], serializer.fields@[i]));
        lemma_member_for(catalog, visitor, members, i, len);
        match member_for(catalog, visitor, members, i, len) {
            Some(k) => {
                lemma_dispatch_bounds(catalog, visitor.fields@, members[k].key);
                lemma_shaped_member(
                    catalog,
                    visitor.fields@[i],
                    serializer.fields@[i],
                    members[k],
                );
                assert(values[k] == member_value(catalog, visitor, members[k]));
            },
            None => {
                if needs_member(visitor.fields@[i]) {
                    let k = choose|k: int|
                        0 <= k < len && k < members.len() && dispatch(
                            catalog,
                            visitor.fields@,
                            (#[trigger] members[k]).key,
                        ) == Some(i);
                    assert(false);
                }
            },
        }
    }
    lemma_gather_exact(narrows, fields, count);
    assert(fields.subrange(0, count) =~= fields);
    assert forall|i: int| 0 <= i < count implies #[trigger] results[i] == Ok::<
        Option<MemberView>,
        EncodeError,
    >(written[i]) by {
        assert(narrows[i] == Ok::<FieldValueView, DecodeErrorView>(fields[i]));
    }
    lemma_gather_exact(results, written, count);
    assert(written.subrange(0, count) =~= written);
    let others = present(written, count);
    assert forall|k: int| 0 <= k < members.len() implies member_covered(
        #[trigger] members[k],
        others,
    ) by {
        if !(members[k].value is Null) {
            lemma_dispatch_bounds(catalog, visitor.fields@, members[k].key);
            let i = dispatch(catalog, visitor.fields@, members[k].key)->0;
            lemma_member_for(catalog, visitor, members, i, len);
            let found = member_for(catalog, visitor, members, i, len)->0;
            assert(found == k) by {
                if found < k {
                    assert(dispatch(catalog, visitor.fields@, members[found].key) != dispatch(
                        catalog,
                        visitor.fields@,
                        members[k].key,
                    ));
                } else if k < found {
                    assert(dispatch(catalog, visitor.fields@, members[k].key) != dispatch(
                        catalog,
                        visitor.fields@,
                        members[found].key,
                    ));
                }
            }
            assert(narrows[i] == Ok::<FieldValueView, DecodeErrorView>(fields[i]));
            lemma_present_has(written, i, count);
            let j = choose|j: int|
                0 <= j < others.len() && #[trigger] others[j] == written[i]->0;
            assert(others[j].key == members[k].key && covered(members[k].value, others[j].value));
        }
    }
    assert forall|j: int| 0 <= j < others.len() implies member_covered(
        #[trigger] others[j],
        members,
    ) by {
        lemma_present_from(written, j, count);
        let i = choose|i: int| 0 <= i < count && #[trigger] written[i] == Some(others[j]);
        assert(narrows[i] == Ok::<FieldValueView, DecodeErrorView>(fields[i]));
        match member_for(catalog, visitor, members, i, len) {
            Some(k) => {
                lemma_member_for(catalog, visitor, members, i, len);
                assert(members[k].key == others[j].key && covered(
                    others[j].value,
                    members[k].value,
                ));
            },
            None => {},
        }
    }
}

/// A value in the form in which it is written is in its declared shape.
pub proof fn lemma_written_value_is_shaped(
    catalog: Catalog,
    ty: ProtobufType,
    message: Seq<char>,
    json: JsonView,
)
    requires
        written_value(catalog, ty, message, json),
    ensures
        shaped_value(catalog, ty, message, json),
    decreases json, 1int, 0int,
{
    if ty is Message {
        let visitor = catalog.spec_visitor(message)->0;
        let members = json->Object_0;
        lemma_written_members_are_shaped(
            catalog,
            visitor,
            members,
            visitor.fields@.len() as int,
            members.len() as int,
        );
        assert(members_shaped(catalog, visitor, members));
        assert forall|slot: int|
            0 <= slot < visitor.fields@.len() && needs_member(
                #[trigger] visitor.fields@[slot],
            ) implies given(catalog, visitor, members, members.len() as int, slot) by {
            let j = choose|j: int|
                0 <= j < members.len() && dispatch(
                    catalog,
                    visitor.fields@,
                    (#[trigger] members[j]).key,
                ) == Some(slot);
            assert(0 <= j < members.len() && dispatch(catalog, visitor.fields@, members[j].key)
                == Some(slot));
        }
    }
}

/// The value of a field in the form in which it is written is in its
/// declared shape.
pub proof fn lemma_written_field_is_shaped(catalog: Catalog, getter: ValueGetter, json: JsonView)
    requires
        written_field(catalog, getter, json),
    ensures
        shaped_field(catalog, getter, json),
    decreases json, 2int, 0int,
{
    match getter.modifier {
        FieldModifier::Repeated => {
            let items = json->Array_0;
            assert forall|i: int| 0 <= i < items.len() implies shaped_value(
                catalog,
                getter.ty,
                getter.message@,
                #[trigger] items[i],
            ) by {
                lemma_written_value_is_shaped(catalog, getter.ty, getter.message@, items[i]);
            }
        },
        _ => {
            if !(json is Null) || getter.modifier == FieldModifier::Singular {
                lemma_written_value_is_shaped(catalog, getter.ty, getter.message@, json);
            }
        },
    }
}

/// The first `c` members, which are what the first `k` fields are written
/// as, each belong to one of those fields, later members to later fields,
/// and hold values in their declared shape; and every one of those fields
/// that needs a member has one.
pub proof fn lemma_written_members_are_shaped(
    catalog: Catalog,
    visitor: StructVisitor,
    members: Seq<MemberView>,
    k: int,
    c: int,
)
    requires
        0 <= k <= visitor.fields@.len(),
        written_members(catalog, visitor, members, k, c),
    ensures
        0 <= c <= members.len(),
        forall|j: int|
            0 <= j < c ==> (dispatch(
                catalog,
                visitor.fields@,
                (#[trigger] members[j]).key,
            ) matches Some(slot) && 0 <= slot < k && shaped_member(
                catalog,
                visitor.fields@[slot],
                members[j],
            )),
        forall|a: int, b: int|
            0 <= a < b < c ==> dispatch(catalog, visitor.fields@, (#[trigger] members[a]).key)->0
                < dispatch(catalog, visitor.fields@, (#[trigger] members[b]).key)->0,
        forall|slot: int|
            0 <= slot < k && needs_member(#[trigger] visitor.fields@[slot]) ==> exists|j: int|
                0 <= j < c && dispatch(catalog, visitor.fields@, (#[trigger] members[j]).key)
                    == Some(slot),
    decreases members, 0int, k,
{
    if k > 0 {
        let field = visitor.fields@[k - 1];
        let getter = field.tokens.value_getter_expr;
        if 0 < c <= members.len() && dispatch(catalog, visitor.fields@, members[c - 1].key)
            == Some(k - 1) {
            lemma_written_members_are_shaped(catalog, visitor, members, k - 1, c - 1);
            let member = members[c - 1];
            match getter.ty {
                ProtobufType::OneOf(path) => {
                    let registry = catalog.spec_oneof(path@)->0;
                    let i = position(names_of(registry.variants@), member.key)->0;
                    lemma_written_value_is_shaped(
                        catalog,
                        registry.variants@[i].ty,
                        registry.variants@[i].message@,
                        member.value,
                    );
                },
                _ => {
                    lemma_written_field_is_shaped(catalog, getter, member.value);
                },
            }
            assert(shaped_member(catalog, field, member));
            assert forall|slot: int|
                0 <= slot < k && needs_member(#[trigger] visitor.fields@[slot]) implies exists|
                j: int,
            |
                0 <= j < c && dispatch(catalog, visitor.fields@, (#[trigger] members[j]).key)
                    == Some(slot) by {
                if slot == k - 1 {
                    assert(0 <= c - 1 < c && dispatch(
                        catalog,
                        visitor.fields@,
                        members[c - 1].key,
                    ) == Some(slot));
                } else {
                    let j = choose|j: int|
                        0 <= j < c - 1 && dispatch(
                            catalog,
                            visitor.fields@,
                            (#[trigger] members[j]).key,
                        ) == Some(slot);
                    assert(0 <= j < c && dispatch(catalog, visitor.fields@, members[j].key)
                        == Some(slot));
                }
            }
        } else {
            lemma_written_members_are_shaped(catalog, visitor, members, k - 1, c);
            assert forall|slot: int|
                0 <= slot < k && needs_member(#[trigger] visitor.fields@[slot]) implies exists|
                j: int,
            |
                0 <= j < c && dispatch(catalog, visitor.fields@, (#[trigger] members[j]).key)
                    == Some(slot) by {
                assert(slot < k - 1);
            }
        }
    }
}

} // verus!
