//! Encoding: writing a message as a JSON object, by the encoding tables of a
//! catalog.
//!
//! The fields are written in the order of their declaration, each under its
//! name; a oneof is written under the name of its active variant, and not at
//! all where it is unset. The first error ends the call.

use vstd::prelude::*;
use crate::attr::{FieldModifier, ProtobufType};
use crate::bytes::{base64_encoded, encode_base64};
use crate::catalog::{lemma_tables_together, Catalog, EnumRegistry, OneofRegistry};
use crate::decode::{fits, spec_decode, spec_decode_oneof, spec_decode_value, spec_fits};
use crate::gather::{gather, lemma_gather_error_stays};
use crate::json::{
    items_view,
    lemma_array_view,
    lemma_object_view,
    members_view,
    JsonValue,
    JsonView,
    Member,
    MemberView,
};
use crate::message::{
    encoded,
    field_reads_back,
    fields_view,
    lemma_message_view,
    lemma_repeated_view,
    message_reads_back,
    value_reads_back,
    values_view,
    DecodeErrorView,
    EncodeError,
    FieldValue,
    FieldValueView,
    Message,
    MessageView,
    OneofValue,
    OneofValueView,
    Value,
    ValueView,
};
use crate::round_trip::{
    distinct_names,
    lemma_message_round_trip,
    lemma_value_round_trip,
    lemma_variant_round_trip,
};
use crate::serialize::field::FieldSerializer;
use crate::serialize::structure::StructSerializer;

verus! {

/// The JSON value of one value of the type `ty`. A value passes through as
/// it is; bytes are written as base64, a value of an enumeration as the name
/// of its variant, a message as an object. A value of another kind than the
/// type's is a `Mismatch`, and so is a number that does not fit the type.
pub open spec fn spec_encode_value(
    catalog: Catalog,
    ty: ProtobufType,
    message: Seq<char>,
    value: ValueView,
) -> Result<JsonView, EncodeError>
    decreases value, 1int,
{
    match ty {
        ProtobufType::Bool => match value {
            ValueView::Bool(b) => Ok(JsonView::Bool(b)),
            _ => Err(EncodeError::Mismatch),
        },
        ProtobufType::String => match value {
            ValueView::String(s) => Ok(JsonView::String(s)),
            _ => Err(EncodeError::Mismatch),
        },
        ProtobufType::Bytes(_) => match value {
            ValueView::Bytes(bytes) => Ok(JsonView::String(base64_encoded(bytes))),
            _ => Err(EncodeError::Mismatch),
        },
        ProtobufType::Enumeration(path) => match catalog.spec_enumeration(path@) {
            None => Err(EncodeError::Unresolved),
            Some(registry) => match value {
                ValueView::Enumeration(n) => match registry.spec_name_for(n) {
                    Some(name) => Ok(JsonView::String(name)),
                    None => Err(EncodeError::InvalidEnumValue(n)),
                },
                _ => Err(EncodeError::Mismatch),
            },
        },
        ProtobufType::Message => match catalog.spec_serializer(message) {
            None => Err(EncodeError::Unresolved),
            Some(serializer) => match value {
                ValueView::Message(m) => spec_encode_message(catalog, serializer, m),
                _ => Err(EncodeError::Mismatch),
            },
        },
        ProtobufType::OneOf(_) => Err(EncodeError::Unresolved),
        _ => match value {
            ValueView::Number(n) => if spec_fits(ty, n) {
                Ok(JsonView::Number(n))
            } else {
                Err(EncodeError::Mismatch)
            },
            _ => Err(EncodeError::Mismatch),
        },
    }
}

/// The JSON values of the values of a repeated field, each taken by itself.
pub open spec fn item_jsons(
    catalog: Catalog,
    ty: ProtobufType,
    message: Seq<char>,
    values: Seq<ValueView>,
) -> Seq<Result<JsonView, EncodeError>>
    decreases values, 0int,
{
    Seq::new(
        values.len(),
        |i: int|
            if 0 <= i < values.len() {
                spec_encode_value(catalog, ty, message, values[i])
            } else {
                Err(EncodeError::Mismatch)
            },
    )
}

/// The member that the active variant of the oneof `registry` is written
/// as: under the name of the variant, the payload written by the variant's
/// type. A variant that the registry does not have is a `Mismatch`.
pub open spec fn spec_encode_variant(
    catalog: Catalog,
    registry: OneofRegistry,
    active: OneofValueView,
) -> Result<MemberView, EncodeError>
    decreases active, 2int,
{
    if 0 <= active.variant < registry.variants@.len() {
        match spec_encode_value(
            catalog,
            registry.variants@[active.variant].ty,
            registry.variants@[active.variant].message@,
            active.value,
        ) {
            Ok(json) => Ok(
                MemberView { key: registry.variants@[active.variant].name@, value: json },
            ),
            Err(e) => Err(e),
        }
    } else {
        Err(EncodeError::Mismatch)
    }
}

/// The member that a field is written as, if it is written. A oneof is
/// written under the name of its active variant, with the payload written by
/// the variant's type, and not at all where it is unset. Any other field is
/// written under its own name: one value as it is, an absent optional value
/// as `null`, the values of a repeated field as an array. What the field
/// holds must be of its cardinality, else it is a `Mismatch`.
pub open spec fn spec_encode_field(
    catalog: Catalog,
    serializer: FieldSerializer,
    field: FieldValueView,
) -> Result<Option<MemberView>, EncodeError>
    decreases field, 3int,
{
    match serializer {
        FieldSerializer::Flatten { oneof } => match field {
            FieldValueView::Oneof(None) => Ok(None),
            FieldValueView::Oneof(Some(active)) => match catalog.spec_oneof(oneof@) {
                None => Err(EncodeError::Unresolved),
                Some(registry) => match spec_encode_variant(catalog, registry, active) {
                    Ok(member) => Ok(Some(member)),
                    Err(e) => Err(e),
                },
            },
            _ => Err(EncodeError::Mismatch),
        },
        FieldSerializer::Emit { name, ty, modifier, message } => match (modifier, field) {
            (FieldModifier::Singular, FieldValueView::Single(value)) => match spec_encode_value(
                catalog,
                ty,
                message@,
                value,
            ) {
                Ok(json) => Ok(Some(MemberView { key: name@, value: json })),
                Err(e) => Err(e),
            },
            (FieldModifier::Optional, FieldValueView::Optional(None)) => Ok(
                Some(MemberView { key: name@, value: JsonView::Null }),
            ),
            (FieldModifier::Optional, FieldValueView::Optional(Some(value))) => match spec_encode_value(
                catalog,
                ty,
                message@,
                value,
            ) {
                Ok(json) => Ok(Some(MemberView { key: name@, value: json })),
                Err(e) => Err(e),
            },
            (FieldModifier::Repeated, FieldValueView::Repeated(values)) => match gather(
                item_jsons(catalog, ty, message@, values),
                values.len() as int,
            ) {
                Ok(items) => Ok(Some(MemberView { key: name@, value: JsonView::Array(items) })),
                Err(e) => Err(e),
            },
            _ => Err(EncodeError::Mismatch),
        },
    }
}

/// What each field of a message is written as, each taken by itself.
pub open spec fn field_members(
    catalog: Catalog,
    serializer: StructSerializer,
    fields: Seq<FieldValueView>,
) -> Seq<Result<Option<MemberView>, EncodeError>>
    decreases fields, 0int,
{
    Seq::new(
        fields.len(),
        |i: int|
            if 0 <= i < fields.len() && i < serializer.fields@.len() {
                spec_encode_field(catalog, serializer.fields@[i], fields[i])
            } else {
                Err(EncodeError::Mismatch)
            },
    )
}

/// The members among the first `n` that are written, in order.
pub open spec fn present(members: Seq<Option<MemberView>>, n: int) -> Seq<MemberView>
    decreases n,
{
    if n <= 0 || n > members.len() {
        Seq::empty()
    } else {
        match members[n - 1] {
            Some(member) => present(members, n - 1).push(member),
            None => present(members, n - 1),
        }
    }
}

/// The JSON object of a message, written by the table `serializer`: what its
/// fields are written as, in the order of declaration. A message with
/// another number of fields than the table's is a `Mismatch`.
pub open spec fn spec_encode_message(
    catalog: Catalog,
    serializer: StructSerializer,
    message: MessageView,
) -> Result<JsonView, EncodeError>
    decreases message, 0int,
{
    if message.fields.len() != serializer.fields@.len() {
        Err(EncodeError::Mismatch)
    } else {
        match gather(
            field_members(catalog, serializer, message.fields),
            message.fields.len() as int,
        ) {
            Err(e) => Err(e),
            Ok(members) => Ok(JsonView::Object(present(members, members.len() as int))),
        }
    }
}

/// Writes one value of the type `ty`.
pub fn encode_value(catalog: &Catalog, ty: &ProtobufType, message: &String, value: &Value) -> (r:
    Result<JsonValue, EncodeError>)
    ensures
        encoded(r) == spec_encode_value(*catalog, *ty, message@, value@),
        r is Ok ==> value_reads_back(value@),
        catalog.wf() && r is Ok ==> spec_decode_value(*catalog, *ty, message@, r->Ok_0@) == Ok::<
            ValueView,
            DecodeErrorView,
        >(value@),
    decreases value, 1int,
{
    let r = match ty {
        ProtobufType::Bool => match value {
            Value::Bool(b) => Ok(JsonValue::Bool(*b)),
            _ => Err(EncodeError::Mismatch),
        },
        ProtobufType::String => match value {
            Value::String(s) => Ok(JsonValue::String(s.clone())),
            _ => Err(EncodeError::Mismatch),
        },
        ProtobufType::Bytes(_) => match value {
            Value::Bytes(bytes) => Ok(JsonValue::String(encode_base64(bytes))),
            _ => Err(EncodeError::Mismatch),
        },
        ProtobufType::Enumeration(path) => match catalog.enumeration(path) {
            None => Err(EncodeError::Unresolved),
            Some(registry) => match value {
                Value::Enumeration(n) => match registry.name_for(*n) {
                    Some(name) => Ok(JsonValue::String(name.clone())),
                    None => Err(EncodeError::InvalidEnumValue(*n)),
                },
                _ => Err(EncodeError::Mismatch),
            },
        },
        ProtobufType::Message => match catalog.serializer(message) {
            None => Err(EncodeError::Unresolved),
            Some(serializer) => match value {
                Value::Message(m) => encode_message(catalog, serializer, m),
                _ => Err(EncodeError::Mismatch),
            },
        },
        ProtobufType::OneOf(_) => Err(EncodeError::Unresolved),
        _ => match value {
            Value::Number(n) => if fits(ty, n) {
                Ok(JsonValue::Number(*n))
            } else {
                Err(EncodeError::Mismatch)
            },
            _ => Err(EncodeError::Mismatch),
        },
    };
    proof {
        if catalog.wf() && r is Ok {
            lemma_value_round_trip(*catalog, *ty, message@, value@);
        }
    }
    r
}

/// What an optional member holds.
pub open spec fn optional_member_view(member: Option<Member>) -> Option<MemberView> {
    match member {
        Some(m) => Some(m@),
        None => None,
    }
}

/// What the result of writing a field holds.
pub open spec fn encoded_member(r: Result<Option<Member>, EncodeError>) -> Result<
    Option<MemberView>,
    EncodeError,
> {
    match r {
        Ok(member) => Ok(optional_member_view(member)),
        Err(e) => Err(e),
    }
}

/// Writes the active variant of the oneof `registry`.
pub fn encode_variant(catalog: &Catalog, registry: &OneofRegistry, active: &OneofValue) -> (r:
    Result<Member, EncodeError>)
    ensures
        encoded(r) == spec_encode_variant(*catalog, *registry, active@),
        r is Ok ==> value_reads_back(active@.value),
    decreases active, 2int,
{
    if active.variant < registry.variants.len() {
        let variant = &registry.variants[active.variant];
        match encode_value(catalog, &variant.ty, &variant.message, &active.value) {
            Ok(json) => Ok(Member { key: variant.name.clone(), value: json }),
            Err(e) => Err(e),
        }
    } else {
        Err(EncodeError::Mismatch)
    }
}

/// Writes a field, if it is written.
pub fn encode_field(catalog: &Catalog, serializer: &FieldSerializer, field: &FieldValue) -> (r:
    Result<Option<Member>, EncodeError>)
    ensures
        encoded_member(r) == spec_encode_field(*catalog, *serializer, field@),
        r is Ok ==> field_reads_back(field@),
    decreases field, 3int,
{
    match serializer {
        FieldSerializer::Flatten { oneof } => match field {
            FieldValue::Oneof(None) => Ok(None),
            FieldValue::Oneof(Some(active)) => match catalog.oneof(oneof) {
                None => Err(EncodeError::Unresolved),
                Some(registry) => match encode_variant(catalog, registry, active) {
                    Ok(member) => Ok(Some(member)),
                    Err(e) => Err(e),
                },
            },
            _ => Err(EncodeError::Mismatch),
        },
        FieldSerializer::Emit { name, ty, modifier, message } => match (modifier, field) {
            (FieldModifier::Singular, FieldValue::Single(value)) => match encode_value(
                catalog,
                ty,
                message,
                value,
            ) {
                Ok(json) => Ok(Some(Member { key: name.clone(), value: json })),
                Err(e) => Err(e),
            },
            (FieldModifier::Optional, FieldValue::Optional(None)) => Ok(
                Some(Member { key: name.clone(), value: JsonValue::Null }),
            ),
            (FieldModifier::Optional, FieldValue::Optional(Some(value))) => match encode_value(
                catalog,
                ty,
                message,
                value,
            ) {
                Ok(json) => Ok(Some(Member { key: name.clone(), value: json })),
                Err(e) => Err(e),
            },
            (FieldModifier::Repeated, FieldValue::Repeated(values)) => {
                let ghost results = item_jsons(*catalog, *ty, message@, values_view(values@));
                proof {
                    lemma_repeated_view(*values);
                }
                let mut items: Vec<JsonValue> = Vec::new();
                let mut i: usize = 0;
                assert(items_view(items@) =~= Seq::<JsonView>::empty());
                while i < values.len()
                    invariant
                        i <= values@.len(),
                        field@ == FieldValueView::Repeated(values_view(values@)),
                        *serializer == (FieldSerializer::Emit {
                            name: *name,
                            ty: *ty,
                            modifier: *modifier,
                            message: *message,
                        }),
                        *modifier == FieldModifier::Repeated,
                        results == item_jsons(*catalog, *ty, message@, values_view(values@)),
                        gather(results, i as int) == Ok::<Seq<JsonView>, EncodeError>(
                            items_view(items@),
                        ),
                        forall|k: int|
                            0 <= k < i ==> value_reads_back(#[trigger] values_view(values@)[k]),
                        forall|k: int|
                            0 <= k < values@.len() ==> decreases_to!(field => #[trigger] values@[k]),
                    decreases values@.len() - i,
                {
                    match encode_value(catalog, ty, message, &values[i]) {
                        Err(e) => {
                            proof {
                                lemma_gather_error_stays(
                                    results,
                                    i as int + 1,
                                    values@.len() as int,
                                );
                            }
                            return Err(e);
                        },
                        Ok(json) => {
                            let ghost before = items@;
                            items.push(json);
                            assert(items_view(items@) =~= items_view(before).push(json@));
                            assert(values_view(values@)[i as int] == values@[i as int]@);
                        },
                    }
                    i += 1;
                }
                proof {
                    lemma_array_view(items);
                }
                Ok(Some(Member { key: name.clone(), value: JsonValue::Array(items) }))
            },
            _ => Err(EncodeError::Mismatch),
        },
    }
}

/// Writes a message by the table `serializer`.
pub fn encode_message(catalog: &Catalog, serializer: &StructSerializer, message: &Message) -> (r:
    Result<JsonValue, EncodeError>)
    ensures
        encoded(r) == spec_encode_message(*catalog, *serializer, message@),
        r is Ok ==> message_reads_back(message@),
        catalog.wf() && catalog.spec_serializer(serializer.name@) == Some(*serializer) && r is Ok
            ==> spec_decode(*catalog, serializer.name@, r->Ok_0@) == Ok::<
            MessageView,
            DecodeErrorView,
        >(message@),
    decreases message, 0int,
{
    proof {
        lemma_message_view(*message);
    }
    if message.fields.len() != serializer.fields.len() {
        return Err(EncodeError::Mismatch);
    }
    let ghost held = fields_view(message.fields@);
    let ghost results = field_members(*catalog, *serializer, held);
    let ghost mut written: Seq<Option<MemberView>> = Seq::empty();
    let mut members: Vec<Member> = Vec::new();
    let mut i: usize = 0;
    assert(members_view(members@) =~= Seq::<MemberView>::empty());
    while i < message.fields.len()
        invariant
            i <= message.fields@.len(),
            message.fields@.len() == serializer.fields@.len(),
            held == fields_view(message.fields@),
            message@ == (MessageView { fields: held }),
            results == field_members(*catalog, *serializer, held),
            written.len() == i,
            gather(results, i as int) == Ok::<Seq<Option<MemberView>>, EncodeError>(written),
            members_view(members@) == present(written, i as int),
            forall|k: int| 0 <= k < i ==> field_reads_back(#[trigger] held[k]),
            forall|k: int|
                0 <= k < message.fields@.len() ==> decreases_to!(message => #[trigger] message.fields@[k]),
        decreases message.fields@.len() - i,
    {
        match encode_field(catalog, &serializer.fields[i], &message.fields[i]) {
            Err(e) => {
                proof {
                    lemma_gather_error_stays(results, i as int + 1, held.len() as int);
                }
                return Err(e);
            },
            Ok(member) => {
                proof {
                    assert(held[i as int] == message.fields@[i as int]@);
                    let earlier = written;
                    written = written.push(optional_member_view(member));
                    lemma_present_prefix(written, earlier, i as int);
                }
                if let Some(m) = member {
                    let ghost before = members@;
                    members.push(m);
                    assert(members_view(members@) =~= members_view(before).push(m@));
                }
            },
        }
        i += 1;
    }
    proof {
        lemma_object_view(members);
        assert(message_reads_back(message@));
        if catalog.wf() && catalog.spec_serializer(serializer.name@) == Some(*serializer) {
            lemma_tables_together(*catalog, serializer.name@);
            lemma_message_round_trip(
                *catalog,
                catalog.spec_visitor(serializer.name@)->0,
                *serializer,
                message@,
            );
        }
    }
    Ok(JsonValue::Object(members))
}

/// What is written of the first `n` members does not depend on those that
/// follow.
pub proof fn lemma_present_prefix(
    longer: Seq<Option<MemberView>>,
    shorter: Seq<Option<MemberView>>,
    n: int,
)
    requires
        0 <= n <= shorter.len() <= longer.len(),
        forall|i: int| 0 <= i < n ==> longer[i] == shorter[i],
    ensures
        present(longer, n) == present(shorter, n),
    decreases n,
{
    if n > 0 {
        lemma_present_prefix(longer, shorter, n - 1);
    }
}

/// The JSON object of the message named `name`. A name that the catalog
/// holds no encoding table for is `Unresolved`.
pub open spec fn spec_encode(catalog: Catalog, name: Seq<char>, message: MessageView) -> Result<
    JsonView,
    EncodeError,
> {
    match catalog.spec_serializer(name) {
        Some(serializer) => spec_encode_message(catalog, serializer, message),
        None => Err(EncodeError::Unresolved),
    }
}

/// Writes `message` as the message named `name`.
pub fn encode(catalog: &Catalog, name: &String, message: &Message) -> (r: Result<
    JsonValue,
    EncodeError,
>)
    ensures
        encoded(r) == spec_encode(*catalog, name@, message@),
        r is Ok ==> message_reads_back(message@),
        catalog.wf() && r is Ok ==> spec_decode(*catalog, name@, r->Ok_0@) == Ok::<
            MessageView,
            DecodeErrorView,
        >(message@),
{
    let r = match catalog.serializer(name) {
        Some(serializer) => encode_message(catalog, serializer, message),
        None => Err(EncodeError::Unresolved),
    };
    proof {
        if catalog.wf() && r is Ok {
            lemma_tables_together(*catalog, name@);
            lemma_message_round_trip(
                *catalog,
                catalog.spec_visitor(name@)->0,
                catalog.spec_serializer(name@)->0,
                message@,
            );
        }
    }
    r
}

/// The JSON string of a value of the enumeration `registry`: the name of
/// the variant with the discriminant `value`. A discriminant of no variant
/// is an `InvalidEnumValue`, which cites it.
pub open spec fn spec_encode_enumeration(registry: EnumRegistry, value: i32) -> Result<
    JsonView,
    EncodeError,
> {
    match registry.spec_name_for(value) {
        Some(name) => Ok(JsonView::String(name)),
        None => Err(EncodeError::InvalidEnumValue(value)),
    }
}

/// Writes a value of the enumeration `registry`.
pub fn encode_enumeration(registry: &EnumRegistry, value: i32) -> (r: Result<
    JsonValue,
    EncodeError,
>)
    ensures
        encoded(r) == spec_encode_enumeration(*registry, value),
{
    match registry.name_for(value) {
        Some(name) => Ok(JsonValue::String(name.clone())),
        None => Err(EncodeError::InvalidEnumValue(value)),
    }
}

/// The JSON object of a value of the oneof `registry`: one member, under
/// the name of the active variant.
pub open spec fn spec_encode_oneof(catalog: Catalog, registry: OneofRegistry, active: OneofValueView) -> Result<
    JsonView,
    EncodeError,
> {
    match spec_encode_variant(catalog, registry, active) {
        Ok(member) => Ok(JsonView::Object(seq![member])),
        Err(e) => Err(e),
    }
}

/// Writes a value of the oneof `registry`.
pub fn encode_oneof(catalog: &Catalog, registry: &OneofRegistry, active: &OneofValue) -> (r:
    Result<JsonValue, EncodeError>)
    ensures
        encoded(r) == spec_encode_oneof(*catalog, *registry, active@),
        r is Ok ==> value_reads_back(active@.value),
        catalog.wf() && distinct_names(*registry) && r is Ok ==> spec_decode_oneof(
            *catalog,
            *registry,
            r->Ok_0@,
        ) == Ok::<OneofValueView, DecodeErrorView>(active@),
{
    match encode_variant(catalog, registry, active) {
        Ok(member) => {
            let ghost written = member@;
            let mut members: Vec<Member> = Vec::new();
            members.push(member);
            proof {
                lemma_object_view(members);
                assert(members_view(members@) =~= seq![written]);
                if catalog.wf() && distinct_names(*registry) {
                    lemma_variant_round_trip(*catalog, *registry, active@);
                }
            }
            Ok(JsonValue::Object(members))
        },
        Err(e) => Err(e),
    }
}

/// The members that are written of the first `k` are the first of those
/// that are written of the first `n`.
pub proof fn lemma_present_grows(members: Seq<Option<MemberView>>, k: int, n: int)
    requires
        0 <= k <= n <= members.len(),
    ensures
        present(members, k).len() <= present(members, n).len(),
        present(members, n).subrange(0, present(members, k).len() as int) == present(members, k),
    decreases n - k,
{
    if k < n {
        lemma_present_grows(members, k, n - 1);
        assert(present(members, n).subrange(0, present(members, k).len() as int) =~= present(
            members,
            n - 1,
        ).subrange(0, present(members, k).len() as int));
    } else {
        assert(present(members, n).subrange(0, present(members, n).len() as int) =~= present(
            members,
            n,
        ));
    }
}

} // verus!
