//! Decoding: reading a JSON value as a message, by the decoding tables of a
//! catalog.
//!
//! An object is read member by member. A key is matched against the names of
//! the variants of the message's oneofs and against the names of its other
//! fields; the value under it is read by the strategy of the field that
//! answers; at the end of the object every field that was not given is
//! narrowed as its strategy says. The first error ends the call.

use vstd::prelude::*;
use crate::attr::{DefaultValue, FieldModifier, ProtobufType};
use crate::bytes::{base64_decoded, decode_base64};
use crate::catalog::{find_named, names_of, Catalog, EnumRegistry, OneofRegistry};
use crate::deserialize::field::{Narrowing, ValueGetter};
use crate::deserialize::structure::{FieldVisitor, StructVisitor};
use crate::gather::{gather, lemma_gather_error_stays};
use crate::json::{
    items_view,
    lemma_array_view,
    lemma_object_view,
    members_view,
    JsonValue,
    JsonView,
    MemberView,
    Number,
};
use crate::message::{
    decoded,
    fields_view,
    lemma_message_view,
    lemma_repeated_view,
    values_view,
    DecodeError,
    DecodeErrorView,
    FieldValue,
    FieldValueView,
    Message,
    MessageView,
    OneofValue,
    OneofValueView,
    Value,
    ValueView,
};
use crate::text::position;

verus! {

/// Whether the number `n` is a value of the numeric type `ty`: an integer
/// type takes the integers of its range, and `Fixed32` and `Fixed64`, which
/// stand for the signed and the unsigned form alike, those of both ranges; a
/// floating-point type takes every number.
pub open spec fn spec_fits(ty: ProtobufType, n: Number) -> bool {
    match ty {
        ProtobufType::Int32 => n.integer() is Some && i32::MIN <= n.integer()->0 <= i32::MAX,
        ProtobufType::Uint32 => n.integer() is Some && 0 <= n.integer()->0 <= u32::MAX,
        ProtobufType::Fixed32 => n.integer() is Some && i32::MIN <= n.integer()->0 <= u32::MAX,
        ProtobufType::Int64 => n.integer() is Some && i64::MIN <= n.integer()->0 <= i64::MAX,
        ProtobufType::Uint64 => n.integer() is Some && 0 <= n.integer()->0 <= u64::MAX,
        ProtobufType::Fixed64 => n.integer() is Some && i64::MIN <= n.integer()->0 <= u64::MAX,
        ProtobufType::Float => true,
        ProtobufType::Double => true,
        _ => false,
    }
}

/// Whether the number `n` is a value of the numeric type `ty`.
pub fn fits(ty: &ProtobufType, n: &Number) -> (r: bool)
    ensures
        r == spec_fits(*ty, *n),
{
    match ty {
        ProtobufType::Int32 => n.is_integer_within(-2147483648, 2147483647),
        ProtobufType::Uint32 => n.is_integer_within(0, 4294967295),
        ProtobufType::Fixed32 => n.is_integer_within(-2147483648, 4294967295),
        ProtobufType::Int64 => n.is_integer_within(-9223372036854775808, 9223372036854775807),
        ProtobufType::Uint64 => n.is_integer_within(0, 18446744073709551615),
        ProtobufType::Fixed64 => n.is_integer_within(-9223372036854775808, 18446744073709551615),
        ProtobufType::Float => true,
        ProtobufType::Double => true,
        _ => false,
    }
}

/// The zero value of the type `ty`: `false`, the empty text, no bytes, the
/// number zero, the default variant of an enumeration, and for a message the
/// message whose fields all hold their zero. `fuel` bounds how deep messages
/// are looked up within messages.
pub open spec fn spec_zero_value(
    catalog: Catalog,
    ty: ProtobufType,
    message: Seq<char>,
    fuel: nat,
) -> ValueView
    decreases fuel, 1int,
{
    match ty {
        ProtobufType::Message => ValueView::Message(spec_zero_message(catalog, message, fuel)),
        ProtobufType::Enumeration(path) => ValueView::Enumeration(
            catalog.spec_enumeration_default(path@),
        ),
        ProtobufType::Bool => ValueView::Bool(false),
        ProtobufType::String => ValueView::String(Seq::empty()),
        ProtobufType::Bytes(_) => ValueView::Bytes(Seq::empty()),
        ProtobufType::Float => ValueView::Number(Number::Float(0)),
        ProtobufType::Double => ValueView::Number(Number::Float(0)),
        ProtobufType::OneOf(_) => ValueView::Bool(false),
        _ => ValueView::Number(Number::PosInt(0)),
    }
}

/// What a field that was never given holds: nothing where it is a oneof,
/// optional or repeated, else the zero value of its type.
pub open spec fn spec_zero_field(catalog: Catalog, getter: ValueGetter, fuel: nat) -> FieldValueView
    decreases fuel, 2int,
{
    match getter.ty {
        ProtobufType::OneOf(_) => FieldValueView::Oneof(None),
        _ => match getter.modifier {
            FieldModifier::Singular => FieldValueView::Single(
                spec_zero_value(catalog, getter.ty, getter.message@, fuel),
            ),
            FieldModifier::Repeated => FieldValueView::Repeated(Seq::empty()),
            FieldModifier::Optional => FieldValueView::Optional(None),
        },
    }
}

/// The message named `name` whose fields were never given. Without fuel, or
/// where the catalog holds no such message, it has no fields.
pub open spec fn spec_zero_message(catalog: Catalog, name: Seq<char>, fuel: nat) -> MessageView
    decreases fuel, 0int,
{
    match catalog.spec_visitor(name) {
        Some(visitor) => if fuel > 0 {
            MessageView {
                fields: Seq::new(
                    visitor.fields@.len(),
                    |i: int|
                        spec_zero_field(
                            catalog,
                            visitor.fields@[i].tokens.value_getter_expr,
                            (fuel - 1) as nat,
                        ),
                ),
            }
        } else {
            MessageView { fields: Seq::empty() }
        },
        None => MessageView { fields: Seq::empty() },
    }
}

/// The value that `default` stands for, for a field read by `getter`.
pub open spec fn spec_default_value(
    catalog: Catalog,
    default: DefaultValue,
    getter: ValueGetter,
) -> ValueView {
    match default {
        DefaultValue::Enumeration(path) => ValueView::Enumeration(
            catalog.spec_enumeration_default(path@),
        ),
        DefaultValue::Type => spec_zero_value(
            catalog,
            getter.ty,
            getter.message@,
            catalog.visitors@.len(),
        ),
    }
}

/// What a field holds whose value was of the wrong shape, where such errors
/// are omitted: the default in place of the one value, also of an optional
/// field; no values in a repeated field.
pub open spec fn spec_masked(
    catalog: Catalog,
    getter: ValueGetter,
    default: DefaultValue,
) -> FieldValueView {
    match getter.modifier {
        FieldModifier::Singular => FieldValueView::Single(
            spec_default_value(catalog, default, getter),
        ),
        FieldModifier::Repeated => FieldValueView::Repeated(Seq::empty()),
        FieldModifier::Optional => FieldValueView::Optional(
            Some(spec_default_value(catalog, default, getter)),
        ),
    }
}

/// One value of the type `ty`, read from `json`. A JSON value of another
/// shape than the type's is a `TypeMismatch`: only a JSON number is a number,
/// and only one that fits the type; an enumeration and bytes are JSON strings,
/// the name of a variant and base64; a message is an object.
pub open spec fn spec_decode_value(
    catalog: Catalog,
    ty: ProtobufType,
    message: Seq<char>,
    json: JsonView,
) -> Result<ValueView, DecodeErrorView>
    decreases json, 1int,
{
    match ty {
        ProtobufType::Bool => match json {
            JsonView::Bool(b) => Ok(ValueView::Bool(b)),
            _ => Err(DecodeErrorView::TypeMismatch),
        },
        ProtobufType::String => match json {
            JsonView::String(s) => Ok(ValueView::String(s)),
            _ => Err(DecodeErrorView::TypeMismatch),
        },
        ProtobufType::Bytes(_) => match json {
            JsonView::String(s) => match base64_decoded(s) {
                Some(bytes) => Ok(ValueView::Bytes(bytes)),
                None => Err(DecodeErrorView::InvalidBytes(s)),
            },
            _ => Err(DecodeErrorView::TypeMismatch),
        },
        ProtobufType::Enumeration(path) => match catalog.spec_enumeration(path@) {
            None => Err(DecodeErrorView::Unresolved),
            Some(registry) => match json {
                JsonView::String(s) => match registry.spec_value_for(s) {
                    Some(value) => Ok(ValueView::Enumeration(value)),
                    None => Err(DecodeErrorView::UnknownVariant(s)),
                },
                _ => Err(DecodeErrorView::TypeMismatch),
            },
        },
        ProtobufType::Message => match catalog.spec_visitor(message) {
            None => Err(DecodeErrorView::Unresolved),
            Some(visitor) => match spec_visit_map(catalog, visitor, json) {
                Ok(m) => Ok(ValueView::Message(m)),
                Err(e) => Err(e),
            },
        },
        ProtobufType::OneOf(_) => Err(DecodeErrorView::Unresolved),
        _ => match json {
            JsonView::Number(n) => if spec_fits(ty, n) {
                Ok(ValueView::Number(n))
            } else {
                Err(DecodeErrorView::TypeMismatch)
            },
            _ => Err(DecodeErrorView::TypeMismatch),
        },
    }
}

/// The variant of the oneof `registry` that the key `key` names, with the
/// payload read from `json` by the variant's type. A key that names no
/// variant is an `UnknownField`.
pub open spec fn spec_visit_variant(
    catalog: Catalog,
    registry: OneofRegistry,
    key: Seq<char>,
    json: JsonView,
) -> Result<OneofValueView, DecodeErrorView>
    decreases json, 2int,
{
    match position(names_of(registry.variants@), key) {
        None => Err(DecodeErrorView::UnknownField(key)),
        Some(i) => match spec_decode_value(
            catalog,
            registry.variants@[i].ty,
            registry.variants@[i].message@,
            json,
        ) {
            Ok(value) => Ok(OneofValueView { variant: i, value }),
            Err(e) => Err(e),
        },
    }
}

/// The variant of the oneof at `path` that the key `key` names, with the
/// payload read from `json`.
pub open spec fn spec_visit_enum(
    catalog: Catalog,
    path: Seq<char>,
    key: Seq<char>,
    json: JsonView,
) -> Result<OneofValueView, DecodeErrorView>
    decreases json, 3int,
{
    match catalog.spec_oneof(path) {
        None => Err(DecodeErrorView::Unresolved),
        Some(registry) => spec_visit_variant(catalog, registry, key, json),
    }
}

/// The results of reading each item of an array as a value of the type `ty`.
pub open spec fn item_values(
    catalog: Catalog,
    ty: ProtobufType,
    message: Seq<char>,
    items: Seq<JsonView>,
) -> Seq<Result<ValueView, DecodeErrorView>>
    decreases items, 0int,
{
    Seq::new(
        items.len(),
        |i: int|
            if 0 <= i < items.len() {
                spec_decode_value(catalog, ty, message, items[i])
            } else {
                Err(DecodeErrorView::Unresolved)
            },
    )
}

/// What the field read by `getter` holds when `json` stands under the key
/// `key`, before any error is omitted. A oneof takes the variant that the
/// key names. A singular field takes one value. An optional field takes
/// `null` for no value, else one value. A repeated field takes an array, and
/// the first item that is in error fails it.
pub open spec fn spec_raw_value(
    catalog: Catalog,
    getter: ValueGetter,
    key: Seq<char>,
    json: JsonView,
) -> Result<FieldValueView, DecodeErrorView>
    decreases json, 4int,
{
    match getter.ty {
        ProtobufType::OneOf(path) => match spec_visit_enum(catalog, path@, key, json) {
            Ok(active) => Ok(FieldValueView::Oneof(Some(active))),
            Err(e) => Err(e),
        },
        _ => match getter.modifier {
            FieldModifier::Singular => match spec_decode_value(
                catalog,
                getter.ty,
                getter.message@,
                json,
            ) {
                Ok(value) => Ok(FieldValueView::Single(value)),
                Err(e) => Err(e),
            },
            FieldModifier::Optional => match json {
                JsonView::Null => Ok(FieldValueView::Optional(None)),
                _ => match spec_decode_value(catalog, getter.ty, getter.message@, json) {
                    Ok(value) => Ok(FieldValueView::Optional(Some(value))),
                    Err(e) => Err(e),
                },
            },
            FieldModifier::Repeated => match json {
                JsonView::Array(items) => match gather(
                    item_values(catalog, getter.ty, getter.message@, items),
                    items.len() as int,
                ) {
                    Ok(values) => Ok(FieldValueView::Repeated(values)),
                    Err(e) => Err(e),
                },
                _ => Err(DecodeErrorView::TypeMismatch),
            },
        },
    }
}

/// What the field read by `getter` holds when `json` stands under the key
/// `key`. Where the getter has a fallback, a `TypeMismatch` is omitted and
/// the fallback taken; every other error stays, and so does every error of
/// a oneof.
pub open spec fn spec_get_value(
    catalog: Catalog,
    getter: ValueGetter,
    key: Seq<char>,
    json: JsonView,
) -> Result<FieldValueView, DecodeErrorView>
    decreases json, 5int,
{
    match (spec_raw_value(catalog, getter, key, json), getter.fallback) {
        (Err(DecodeErrorView::TypeMismatch), Some(default)) => if getter.ty is OneOf {
            Err(DecodeErrorView::TypeMismatch)
        } else {
            Ok(spec_masked(catalog, getter, default))
        },
        (raw, _) => raw,
    }
}

/// Whether the field answers to the key: a oneof where the key names one of
/// its variants, any other field where the key is its name.
pub open spec fn answers(catalog: Catalog, field: FieldVisitor, key: Seq<char>) -> bool {
    match field.variant.ty {
        Some(path) => match catalog.spec_oneof(path@) {
            Some(registry) => position(names_of(registry.variants@), key) is Some,
            None => false,
        },
        None => field.variant.ident@ == key,
    }
}

/// The first field from position `from` on that answers to the key, among
/// the oneofs or among the other fields.
pub open spec fn first_answering(
    catalog: Catalog,
    fields: Seq<FieldVisitor>,
    key: Seq<char>,
    oneof: bool,
    from: int,
) -> Option<int>
    decreases fields.len() - from,
{
    if from < 0 || from >= fields.len() {
        None
    } else if (fields[from].variant.ty is Some) == oneof && answers(catalog, fields[from], key) {
        Some(from)
    } else {
        first_answering(catalog, fields, key, oneof, from + 1)
    }
}

/// `first_answering` finds a field exactly where one answers, and the first.
pub proof fn lemma_first_answering(
    catalog: Catalog,
    fields: Seq<FieldVisitor>,
    key: Seq<char>,
    oneof: bool,
    from: int,
)
    requires
        0 <= from,
    ensures
        match first_answering(catalog, fields, key, oneof, from) {
            Some(i) => from <= i < fields.len() && (fields[i].variant.ty is Some) == oneof
                && answers(catalog, fields[i], key) && forall|j: int|
                from <= j < i ==> !((fields[j].variant.ty is Some) == oneof && answers(
                    catalog,
                    fields[j],
                    key,
                )),
            None => forall|j: int|
                from <= j < fields.len() ==> !((fields[j].variant.ty is Some) == oneof && answers(
                    catalog,
                    fields[j],
                    key,
                )),
        },
    decreases fields.len() - from,
{
    if from < fields.len() && !((fields[from].variant.ty is Some) == oneof && answers(
        catalog,
        fields[from],
        key,
    )) {
        lemma_first_answering(catalog, fields, key, oneof, from + 1);
    }
}

/// The field that a key belongs to: the first oneof with a variant of that
/// name, else the first other field of that name.
pub open spec fn dispatch(catalog: Catalog, fields: Seq<FieldVisitor>, key: Seq<char>) -> Option<
    int,
> {
    match first_answering(catalog, fields, key, true, 0) {
        Some(i) => Some(i),
        None => first_answering(catalog, fields, key, false, 0),
    }
}

/// What the member would give its field, were it the first under its key.
pub open spec fn member_value(catalog: Catalog, visitor: StructVisitor, member: MemberView) -> Result<
    FieldValueView,
    DecodeErrorView,
>
    decreases member, 6int,
{
    match dispatch(catalog, visitor.fields@, member.key) {
        Some(slot) => spec_get_value(
            catalog,
            visitor.fields@[slot].tokens.value_getter_expr,
            member.key,
            member.value,
        ),
        None => Err(DecodeErrorView::UnknownField(member.key)),
    }
}

/// The fields as the first `n` members leave them: `None` for a field that
/// no member has given yet. A key that belongs to no field is an
/// `UnknownField`, unless such keys are ignored; a key whose field was given
/// already is a `DuplicateField`; else the member gives the field its value,
/// or fails with the error of that value.
pub open spec fn scan(
    catalog: Catalog,
    visitor: StructVisitor,
    members: Seq<MemberView>,
    values: Seq<Result<FieldValueView, DecodeErrorView>>,
    n: int,
) -> Result<Seq<Option<FieldValueView>>, DecodeErrorView>
    decreases n,
{
    if n <= 0 || n > members.len() || n > values.len() {
        Ok(Seq::new(visitor.fields@.len(), |i: int| None))
    } else {
        match scan(catalog, visitor, members, values, n - 1) {
            Err(e) => Err(e),
            Ok(slots) => match dispatch(catalog, visitor.fields@, members[n - 1].key) {
                None => if visitor.ignore_unknown_fields {
                    Ok(slots)
                } else {
                    Err(DecodeErrorView::UnknownField(members[n - 1].key))
                },
                Some(slot) => if slots[slot] is Some {
                    Err(DecodeErrorView::DuplicateField(visitor.fields@[slot].name@))
                } else {
                    match values[n - 1] {
                        Err(e) => Err(e),
                        Ok(value) => Ok(slots.update(slot, Some(value))),
                    }
                },
            },
        }
    }
}

/// Once a member is in error, that error stays.
pub proof fn lemma_scan_error_stays(
    catalog: Catalog,
    visitor: StructVisitor,
    members: Seq<MemberView>,
    values: Seq<Result<FieldValueView, DecodeErrorView>>,
    n: int,
    m: int,
)
    requires
        0 <= n <= m <= members.len(),
        m <= values.len(),
        scan(catalog, visitor, members, values, n) is Err,
    ensures
        scan(catalog, visitor, members, values, m) == scan(catalog, visitor, members, values, n),
    decreases m - n,
{
    if n < m {
        lemma_scan_error_stays(catalog, visitor, members, values, n, m - 1);
    }
}

/// Every member seen leaves one slot for each field.
pub proof fn lemma_scan_len(
    catalog: Catalog,
    visitor: StructVisitor,
    members: Seq<MemberView>,
    values: Seq<Result<FieldValueView, DecodeErrorView>>,
    n: int,
)
    ensures
        scan(catalog, visitor, members, values, n) matches Ok(slots) ==> slots.len()
            == visitor.fields@.len(),
    decreases n,
{
    if !(n <= 0 || n > members.len() || n > values.len()) {
        lemma_scan_len(catalog, visitor, members, values, n - 1);
        lemma_dispatch_bounds(catalog, visitor.fields@, members[n - 1].key);
    }
}

/// A key belongs to a field of the message that answers to it, if to any.
pub proof fn lemma_dispatch_bounds(catalog: Catalog, fields: Seq<FieldVisitor>, key: Seq<char>)
    ensures
        dispatch(catalog, fields, key) matches Some(i) ==> 0 <= i < fields.len() && answers(
            catalog,
            fields[i],
            key,
        ),
{
    lemma_first_answering(catalog, fields, key, true, 0);
    lemma_first_answering(catalog, fields, key, false, 0);
}

/// What a field holds at the end of the object: what it was given, else what
/// its narrowing says of a field that was not given.
pub open spec fn narrowed(catalog: Catalog, field: FieldVisitor, slot: Option<FieldValueView>) -> Result<
    FieldValueView,
    DecodeErrorView,
> {
    match slot {
        Some(value) => Ok(value),
        None => match field.tokens.narrowing_expr {
            Narrowing::Required => Err(DecodeErrorView::MissingField(field.name@)),
            Narrowing::Default(default) => Ok(
                FieldValueView::Single(
                    spec_default_value(catalog, default, field.tokens.value_getter_expr),
                ),
            ),
            Narrowing::Empty => Ok(FieldValueView::Repeated(Seq::empty())),
            Narrowing::Absent => Ok(FieldValueView::Optional(None)),
            Narrowing::Unset => Ok(FieldValueView::Oneof(None)),
        },
    }
}

/// The narrowing of every field.
pub open spec fn narrowings(
    catalog: Catalog,
    visitor: StructVisitor,
    slots: Seq<Option<FieldValueView>>,
) -> Seq<Result<FieldValueView, DecodeErrorView>> {
    Seq::new(
        visitor.fields@.len(),
        |i: int|
            if 0 <= i < slots.len() {
                narrowed(catalog, visitor.fields@[i], slots[i])
            } else {
                narrowed(catalog, visitor.fields@[i], None)
            },
    )
}

/// What the members hold for their fields, each taken by itself.
pub open spec fn member_values(catalog: Catalog, visitor: StructVisitor, members: Seq<MemberView>) -> Seq<
    Result<FieldValueView, DecodeErrorView>,
>
    decreases members, 7int,
{
    Seq::new(
        members.len(),
        |i: int|
            if 0 <= i < members.len() {
                member_value(catalog, visitor, members[i])
            } else {
                Err(DecodeErrorView::Unresolved)
            },
    )
}

/// The message that `json` holds, read by the table `visitor`: `json` is an
/// object, its members are scanned in order, and then every field is
/// narrowed, in the order of declaration. Anything but an object is a
/// `TypeMismatch`.
pub open spec fn spec_visit_map(catalog: Catalog, visitor: StructVisitor, json: JsonView) -> Result<
    MessageView,
    DecodeErrorView,
>
    decreases json, 0int,
{
    match json {
        JsonView::Object(members) => match scan(
            catalog,
            visitor,
            members,
            member_values(catalog, visitor, members),
            members.len() as int,
        ) {
            Err(e) => Err(e),
            Ok(slots) => match gather(
                narrowings(catalog, visitor, slots),
                visitor.fields@.len() as int,
            ) {
                Ok(fields) => Ok(MessageView { fields }),
                Err(e) => Err(e),
            },
        },
        _ => Err(DecodeErrorView::TypeMismatch),
    }
}

/// The zero value of the type `ty`.
pub fn zero_value(catalog: &Catalog, ty: &ProtobufType, message: &String, fuel: usize) -> (r: Value)
    ensures
        r@ == spec_zero_value(*catalog, *ty, message@, fuel as nat),
    decreases fuel, 1int,
{
    match ty {
        ProtobufType::Message => Value::Message(zero_message(catalog, message, fuel)),
        ProtobufType::Enumeration(path) => Value::Enumeration(catalog.enumeration_default(path)),
        ProtobufType::Bool => Value::Bool(false),
        ProtobufType::String => Value::String(String::new()),
        ProtobufType::Bytes(_) => Value::Bytes(Vec::new()),
        ProtobufType::Float => Value::Number(Number::Float(0)),
        ProtobufType::Double => Value::Number(Number::Float(0)),
        ProtobufType::OneOf(_) => Value::Bool(false),
        _ => Value::Number(Number::PosInt(0)),
    }
}

/// What a field that was never given holds.
pub fn zero_field(catalog: &Catalog, getter: &ValueGetter, fuel: usize) -> (r: FieldValue)
    ensures
        r@ == spec_zero_field(*catalog, *getter, fuel as nat),
    decreases fuel, 2int,
{
    match &getter.ty {
        ProtobufType::OneOf(_) => FieldValue::Oneof(None),
        _ => match getter.modifier {
            FieldModifier::Singular => FieldValue::Single(
                zero_value(catalog, &getter.ty, &getter.message, fuel),
            ),
            FieldModifier::Repeated => {
                let values: Vec<Value> = Vec::new();
                proof {
                    lemma_repeated_view(values);
                    assert(values_view(values@) =~= Seq::<ValueView>::empty());
                }
                FieldValue::Repeated(values)
            },
            FieldModifier::Optional => FieldValue::Optional(None),
        },
    }
}

/// The message named `name` whose fields were never given.
pub fn zero_message(catalog: &Catalog, name: &String, fuel: usize) -> (r: Message)
    ensures
        r@ == spec_zero_message(*catalog, name@, fuel as nat),
    decreases fuel, 0int,
{
    let mut fields: Vec<FieldValue> = Vec::new();
    if fuel > 0 {
        if let Some(visitor) = catalog.visitor(name) {
            let mut i: usize = 0;
            while i < visitor.fields.len()
                invariant
                    i <= visitor.fields@.len(),
                    fuel > 0,
                    fields@.len() == i,
                    forall|k: int|
                        0 <= k < i ==> (#[trigger] fields@[k])@ == spec_zero_field(
                            *catalog,
                            visitor.fields@[k].tokens.value_getter_expr,
                            (fuel - 1) as nat,
                        ),
                decreases visitor.fields@.len() - i,
            {
                fields.push(zero_field(catalog, &visitor.fields[i].tokens.value_getter_expr, fuel - 1));
                i += 1;
            }
        }
    }
    let message = Message { fields };
    proof {
        lemma_message_view(message);
        assert(message@.fields =~= spec_zero_message(*catalog, name@, fuel as nat).fields);
    }
    message
}

/// The value that `default` stands for, for a field read by `getter`.
pub fn default_value(catalog: &Catalog, default: &DefaultValue, getter: &ValueGetter) -> (r: Value)
    ensures
        r@ == spec_default_value(*catalog, *default, *getter),
{
    match default {
        DefaultValue::Enumeration(path) => Value::Enumeration(catalog.enumeration_default(path)),
        DefaultValue::Type => zero_value(
            catalog,
            &getter.ty,
            &getter.message,
            catalog.visitors.len(),
        ),
    }
}

/// What a field holds whose value was of the wrong shape, where such errors
/// are omitted.
pub fn masked(catalog: &Catalog, getter: &ValueGetter, default: &DefaultValue) -> (r: FieldValue)
    ensures
        r@ == spec_masked(*catalog, *getter, *default),
{
    match getter.modifier {
        FieldModifier::Singular => FieldValue::Single(default_value(catalog, default, getter)),
        FieldModifier::Repeated => {
            let values: Vec<Value> = Vec::new();
            proof {
                lemma_repeated_view(values);
                assert(values_view(values@) =~= Seq::<ValueView>::empty());
            }
            FieldValue::Repeated(values)
        },
        FieldModifier::Optional => FieldValue::Optional(
            Some(default_value(catalog, default, getter)),
        ),
    }
}

/// The value of a bytes field that was written as `text`, given what the
/// text read as base64 gave: those bytes, or an `InvalidBytes` that cites
/// the text where it gave none.
pub fn bytes_value(text: &String, bytes: Option<Vec<u8>>) -> (r: Result<Value, DecodeError>)
    ensures
        match bytes {
            Some(read) => decoded(r) == Ok::<ValueView, DecodeErrorView>(ValueView::Bytes(read@)),
            None => decoded(r) == Err::<ValueView, DecodeErrorView>(
                DecodeErrorView::InvalidBytes(text@),
            ),
        },
{
    match bytes {
        Some(read) => Ok(Value::Bytes(read)),
        None => Err(DecodeError::InvalidBytes(text.clone())),
    }
}

/// Reads one value of the type `ty` from `json`.
pub fn decode_value(catalog: &Catalog, ty: &ProtobufType, message: &String, json: &JsonValue) -> (r:
    Result<Value, DecodeError>)
    ensures
        decoded(r) == spec_decode_value(*catalog, *ty, message@, json@),
    decreases json, 1int,
{
    match ty {
        ProtobufType::Bool => match json {
            JsonValue::Bool(b) => Ok(Value::Bool(*b)),
            _ => Err(DecodeError::TypeMismatch),
        },
        ProtobufType::String => match json {
            JsonValue::String(s) => Ok(Value::String(s.clone())),
            _ => Err(DecodeError::TypeMismatch),
        },
        ProtobufType::Bytes(_) => match json {
            JsonValue::String(s) => bytes_value(s, decode_base64(s)),
            _ => Err(DecodeError::TypeMismatch),
        },
        ProtobufType::Enumeration(path) => match catalog.enumeration(path) {
            None => Err(DecodeError::Unresolved),
            Some(registry) => match json {
                JsonValue::String(s) => match registry.value_for(s) {
                    Some(value) => Ok(Value::Enumeration(value)),
                    None => Err(DecodeError::UnknownVariant(s.clone())),
                },
                _ => Err(DecodeError::TypeMismatch),
            },
        },
        ProtobufType::Message => match catalog.visitor(message) {
            None => Err(DecodeError::Unresolved),
            Some(visitor) => match visit_map(catalog, visitor, json) {
                Ok(m) => Ok(Value::Message(m)),
                Err(e) => Err(e),
            },
        },
        ProtobufType::OneOf(_) => Err(DecodeError::Unresolved),
        _ => match json {
            JsonValue::Number(n) => if fits(ty, n) {
                Ok(Value::Number(*n))
            } else {
                Err(DecodeError::TypeMismatch)
            },
            _ => Err(DecodeError::TypeMismatch),
        },
    }
}

/// Reads the variant of the oneof `registry` that the key `key` names: its
/// payload is `json`.
pub fn visit_variant(catalog: &Catalog, registry: &OneofRegistry, key: &String, json: &JsonValue) -> (r:
    Result<OneofValue, DecodeError>)
    ensures
        decoded(r) == spec_visit_variant(*catalog, *registry, key@, json@),
    decreases json, 2int,
{
    match find_named(&registry.variants, key) {
        None => Err(DecodeError::UnknownField(key.clone())),
        Some(i) => {
            let variant = &registry.variants[i];
            match decode_value(catalog, &variant.ty, &variant.message, json) {
                Ok(value) => Ok(OneofValue { variant: i, value }),
                Err(e) => Err(e),
            }
        },
    }
}

/// Reads the variant of the oneof at `path` that the key `key` names: its
/// payload is `json`.
pub fn visit_enum(catalog: &Catalog, path: &String, key: &String, json: &JsonValue) -> (r: Result<
    OneofValue,
    DecodeError,
>)
    ensures
        decoded(r) == spec_visit_enum(*catalog, path@, key@, json@),
    decreases json, 3int,
{
    match catalog.oneof(path) {
        Some(registry) => visit_variant(catalog, registry, key, json),
        None => Err(DecodeError::Unresolved),
    }
}

/// Reads what the field read by `getter` holds when `json` stands under the
/// key `key`, before any error is omitted.
pub fn raw_value(catalog: &Catalog, getter: &ValueGetter, key: &String, json: &JsonValue) -> (r:
    Result<FieldValue, DecodeError>)
    ensures
        decoded(r) == spec_raw_value(*catalog, *getter, key@, json@),
    decreases json, 4int,
{
    match &getter.ty {
        ProtobufType::OneOf(path) => match visit_enum(catalog, path, key, json) {
            Ok(active) => Ok(FieldValue::Oneof(Some(active))),
            Err(e) => Err(e),
        },
        _ => match getter.modifier {
            FieldModifier::Singular => match decode_value(
                catalog,
                &getter.ty,
                &getter.message,
                json,
            ) {
                Ok(value) => Ok(FieldValue::Single(value)),
                Err(e) => Err(e),
            },
            FieldModifier::Optional => match json {
                JsonValue::Null => Ok(FieldValue::Optional(None)),
                _ => match decode_value(catalog, &getter.ty, &getter.message, json) {
                    Ok(value) => Ok(FieldValue::Optional(Some(value))),
                    Err(e) => Err(e),
                },
            },
            FieldModifier::Repeated => match json {
                JsonValue::Array(items) => {
                    let ghost results = item_values(
                        *catalog,
                        getter.ty,
                        getter.message@,
                        items_view(items@),
                    );
                    proof {
                        lemma_array_view(*items);
                    }
                    let mut values: Vec<Value> = Vec::new();
                    let mut i: usize = 0;
                    assert(values_view(values@) =~= Seq::<ValueView>::empty());
                    while i < items.len()
                        invariant
                            i <= items@.len(),
                            json@ == JsonView::Array(items_view(items@)),
                            getter.modifier == FieldModifier::Repeated,
                            !(getter.ty is OneOf),
                            results == item_values(
                                *catalog,
                                getter.ty,
                                getter.message@,
                                items_view(items@),
                            ),
                            gather(results, i as int) == Ok::<Seq<ValueView>, DecodeErrorView>(
                                values_view(values@),
                            ),
                            forall|k: int|
                                0 <= k < items@.len() ==> decreases_to!(json => #[trigger] items@[k]),
                        decreases items@.len() - i,
                    {
                        match decode_value(catalog, &getter.ty, &getter.message, &items[i]) {
                            Err(e) => {
                                proof {
                                    lemma_gather_error_stays(
                                        results,
                                        i as int + 1,
                                        items@.len() as int,
                                    );
                                }
                                return Err(e);
                            },
                            Ok(value) => {
                                let ghost before = values@;
                                values.push(value);
                                assert(values_view(values@) =~= values_view(before).push(value@));
                            },
                        }
                        i += 1;
                    }
                    proof {
                        lemma_repeated_view(values);
                    }
                    Ok(FieldValue::Repeated(values))
                },
                _ => Err(DecodeError::TypeMismatch),
            },
        },
    }
}

/// Reads what the field read by `getter` holds when `json` stands under the
/// key `key`.
pub fn get_value(catalog: &Catalog, getter: &ValueGetter, key: &String, json: &JsonValue) -> (r:
    Result<FieldValue, DecodeError>)
    ensures
        decoded(r) == spec_get_value(*catalog, *getter, key@, json@),
    decreases json, 5int,
{
    match raw_value(catalog, getter, key, json) {
        Err(DecodeError::TypeMismatch) => match (&getter.fallback, &getter.ty) {
            (_, ProtobufType::OneOf(_)) => Err(DecodeError::TypeMismatch),
            (Some(default), _) => Ok(masked(catalog, getter, default)),
            (None, _) => Err(DecodeError::TypeMismatch),
        },
        raw => raw,
    }
}

/// Whether the field answers to the key.
pub fn answers_to(catalog: &Catalog, field: &FieldVisitor, key: &String) -> (r: bool)
    ensures
        r == answers(*catalog, *field, key@),
{
    match &field.variant.ty {
        Some(path) => match catalog.oneof(path) {
            Some(registry) => find_named(&registry.variants, key).is_some(),
            None => false,
        },
        None => field.variant.ident == *key,
    }
}

/// Finds the field that the key `key` belongs to.
pub fn visit_str(catalog: &Catalog, fields: &Vec<FieldVisitor>, key: &String) -> (r: Option<usize>)
    ensures
        match r {
            Some(i) => dispatch(*catalog, fields@, key@) == Some(i as int) && i < fields@.len(),
            None => dispatch(*catalog, fields@, key@) is None,
        },
{
    let mut i: usize = 0;
    while i < fields.len()
        invariant
            i <= fields@.len(),
            first_answering(*catalog, fields@, key@, true, 0) == first_answering(
                *catalog,
                fields@,
                key@,
                true,
                i as int,
            ),
        decreases fields@.len() - i,
    {
        if fields[i].variant.ty.is_some() && answers_to(catalog, &fields[i], key) {
            return Some(i);
        }
        i += 1;
    }
    let mut k: usize = 0;
    while k < fields.len()
        invariant
            k <= fields@.len(),
            first_answering(*catalog, fields@, key@, true, 0) is None,
            first_answering(*catalog, fields@, key@, false, 0) == first_answering(
                *catalog,
                fields@,
                key@,
                false,
                k as int,
            ),
        decreases fields@.len() - k,
    {
        if fields[k].variant.ty.is_none() && answers_to(catalog, &fields[k], key) {
            return Some(k);
        }
        k += 1;
    }
    None
}

/// What a list of slots holds.
pub open spec fn slots_view(slots: Seq<Option<FieldValue>>) -> Seq<Option<FieldValueView>> {
    Seq::new(
        slots.len(),
        |i: int|
            match slots[i] {
                Some(value) => Some(value@),
                None => None,
            },
    )
}

/// Reads the message that `json` holds by the table `visitor`.
pub fn visit_map(catalog: &Catalog, visitor: &StructVisitor, json: &JsonValue) -> (r: Result<
    Message,
    DecodeError,
>)
    ensures
        decoded(r) == spec_visit_map(*catalog, *visitor, json@),
    decreases json, 0int,
{
    let members = match json {
        JsonValue::Object(members) => members,
        _ => {
            return Err(DecodeError::TypeMismatch);
        },
    };
    let ghost seen = members_view(members@);
    let ghost values = member_values(*catalog, *visitor, seen);
    proof {
        lemma_object_view(*members);
    }
    let count = visitor.fields.len();
    let mut slots: Vec<Option<FieldValue>> = Vec::new();
    while slots.len() < count
        invariant
            slots@.len() <= count,
            forall|k: int| 0 <= k < slots@.len() ==> slots@[k] is None,
        decreases count - slots@.len(),
    {
        slots.push(None);
    }
    assert(slots_view(slots@) =~= Seq::new(visitor.fields@.len(), |i: int| None));
    let mut i: usize = 0;
    while i < members.len()
        invariant
            i <= members@.len(),
            count == visitor.fields@.len(),
            slots@.len() == count,
            seen == members_view(members@),
            json@ == JsonView::Object(seen),
            values == member_values(*catalog, *visitor, seen),
            scan(*catalog, *visitor, seen, values, i as int) == Ok::<
                Seq<Option<FieldValueView>>,
                DecodeErrorView,
            >(slots_view(slots@)),
            forall|k: int|
                0 <= k < members@.len() ==> decreases_to!(json => (#[trigger] members@[k]).value),
        decreases members@.len() - i,
    {
        let member = &members[i];
        assert(seen[i as int] == member@);
        match visit_str(catalog, &visitor.fields, &member.key) {
            None => {
                if !visitor.ignore_unknown_fields {
                    proof {
                        lemma_scan_error_stays(
                            *catalog,
                            *visitor,
                            seen,
                            values,
                            i as int + 1,
                            seen.len() as int,
                        );
                    }
                    return Err(DecodeError::UnknownField(member.key.clone()));
                }
            },
            Some(slot) => {
                if slots[slot].is_some() {
                    proof {
                        lemma_scan_error_stays(
                            *catalog,
                            *visitor,
                            seen,
                            values,
                            i as int + 1,
                            seen.len() as int,
                        );
                    }
                    return Err(DecodeError::DuplicateField(visitor.fields[slot].name.clone()));
                }
                match get_value(
                    catalog,
                    &visitor.fields[slot].tokens.value_getter_expr,
                    &member.key,
                    &member.value,
                ) {
                    Err(e) => {
                        proof {
                            lemma_scan_error_stays(
                                *catalog,
                                *visitor,
                                seen,
                                values,
                                i as int + 1,
                                seen.len() as int,
                            );
                        }
                        return Err(e);
                    },
                    Ok(value) => {
                        let ghost before = slots@;
                        slots[slot] = Some(value);
                        assert(slots_view(slots@) =~= slots_view(before).update(
                            slot as int,
                            Some(value@),
                        ));
                    },
                }
            },
        }
        i += 1;
    }
    let ghost given = slots_view(slots@);
    let ghost narrows = narrowings(*catalog, *visitor, given);
    let mut fields: Vec<FieldValue> = Vec::new();
    let mut k: usize = 0;
    assert(fields_view(fields@) =~= Seq::<FieldValueView>::empty());
    while k < count
        invariant
            k <= count,
            count == visitor.fields@.len(),
            slots@.len() == count,
            given.len() == count,
            json@ == JsonView::Object(seen),
            scan(*catalog, *visitor, seen, values, seen.len() as int) == Ok::<
                Seq<Option<FieldValueView>>,
                DecodeErrorView,
            >(given),
            values == member_values(*catalog, *visitor, seen),
            narrows == narrowings(*catalog, *visitor, given),
            forall|j: int| k <= j < count ==> slots_view(slots@)[j] == given[j],
            gather(narrows, k as int) == Ok::<Seq<FieldValueView>, DecodeErrorView>(
                fields_view(fields@),
            ),
        decreases count - k,
    {
        let field = &visitor.fields[k];
        assert(slots_view(slots@)[k as int] == given[k as int]);
        let ghost before = slots@;
        let taken = slots[k].take();
        assert forall|j: int| k < j < count implies slots_view(slots@)[j] == given[j] by {
            assert(slots@[j] == before[j]);
            assert(slots_view(before)[j] == given[j]);
        }
        let value = match taken {
            Some(value) => value,
            None => match &field.tokens.narrowing_expr {
                Narrowing::Required => {
                    proof {
                        lemma_gather_error_stays(narrows, k as int + 1, count as int);
                    }
                    return Err(DecodeError::MissingField(field.name.clone()));
                },
                Narrowing::Default(default) => FieldValue::Single(
                    default_value(catalog, default, &field.tokens.value_getter_expr),
                ),
                Narrowing::Empty => {
                    let values: Vec<Value> = Vec::new();
                    proof {
                        lemma_repeated_view(values);
                        assert(values_view(values@) =~= Seq::<ValueView>::empty());
                    }
                    FieldValue::Repeated(values)
                },
                Narrowing::Absent => FieldValue::Optional(None),
                Narrowing::Unset => FieldValue::Oneof(None),
            },
        };
        let ghost earlier = fields@;
        fields.push(value);
        assert(fields_view(fields@) =~= fields_view(earlier).push(value@));
        k += 1;
    }
    let message = Message { fields };
    proof {
        lemma_message_view(message);
    }
    Ok(message)
}

/// The message named `name` that `json` holds. A name that the catalog
/// holds no decoding table for is `Unresolved`.
pub open spec fn spec_decode(catalog: Catalog, name: Seq<char>, json: JsonView) -> Result<
    MessageView,
    DecodeErrorView,
> {
    match catalog.spec_visitor(name) {
        Some(visitor) => spec_visit_map(catalog, visitor, json),
        None => Err(DecodeErrorView::Unresolved),
    }
}

/// Reads `json` as the message named `name`.
pub fn decode(catalog: &Catalog, name: &String, json: &JsonValue) -> (r: Result<
    Message,
    DecodeError,
>)
    ensures
        decoded(r) == spec_decode(*catalog, name@, json@),
{
    match catalog.visitor(name) {
        Some(visitor) => visit_map(catalog, visitor, json),
        None => Err(DecodeError::Unresolved),
    }
}

/// The discriminant that `json` names in `registry`: `json` is a string,
/// the name of a variant, letter for letter. Any other string is an
/// `UnknownVariant`, anything but a string a `TypeMismatch`.
pub open spec fn spec_decode_enumeration(registry: EnumRegistry, json: JsonView) -> Result<
    i32,
    DecodeErrorView,
> {
    match json {
        JsonView::String(s) => match registry.spec_value_for(s) {
            Some(value) => Ok(value),
            None => Err(DecodeErrorView::UnknownVariant(s)),
        },
        _ => Err(DecodeErrorView::TypeMismatch),
    }
}

/// Reads `json` as a value of the enumeration `registry`.
pub fn decode_enumeration(registry: &EnumRegistry, json: &JsonValue) -> (r: Result<
    i32,
    DecodeError,
>)
    ensures
        match spec_decode_enumeration(*registry, json@) {
            Ok(value) => r == Ok::<i32, DecodeError>(value),
            Err(e) => r is Err && r->Err_0@ == e,
        },
{
    match json {
        JsonValue::String(s) => match registry.value_for(s) {
            Some(value) => Ok(value),
            None => Err(DecodeError::UnknownVariant(s.clone())),
        },
        _ => Err(DecodeError::TypeMismatch),
    }
}

/// The variant of the oneof `registry` that `json` holds: `json` is an
/// object with one member, whose key names the variant and whose value is
/// the payload. Anything else is a `TypeMismatch`.
pub open spec fn spec_decode_oneof(catalog: Catalog, registry: OneofRegistry, json: JsonView) -> Result<
    OneofValueView,
    DecodeErrorView,
> {
    match json {
        JsonView::Object(members) => if members.len() == 1 {
            spec_visit_variant(catalog, registry, members[0].key, members[0].value)
        } else {
            Err(DecodeErrorView::TypeMismatch)
        },
        _ => Err(DecodeErrorView::TypeMismatch),
    }
}

/// Reads `json` as a value of the oneof `registry`.
pub fn decode_oneof(catalog: &Catalog, registry: &OneofRegistry, json: &JsonValue) -> (r: Result<
    OneofValue,
    DecodeError,
>)
    ensures
        decoded(r) == spec_decode_oneof(*catalog, *registry, json@),
{
    match json {
        JsonValue::Object(members) => {
            proof {
                lemma_object_view(*members);
            }
            if members.len() == 1 {
                assert(members_view(members@)[0] == members@[0]@);
                visit_variant(catalog, registry, &members[0].key, &members[0].value)
            } else {
                Err(DecodeError::TypeMismatch)
            }
        },
        _ => Err(DecodeError::TypeMismatch),
    }
}

/// A key that a field answers to belongs to that field, where no key
/// belongs to two fields.
pub proof fn lemma_dispatch_of_answer(
    catalog: Catalog,
    visitor: StructVisitor,
    slot: int,
    key: Seq<char>,
)
    requires
        catalog.unambiguous(visitor),
        0 <= slot < visitor.fields@.len(),
        answers(catalog, visitor.fields@[slot], key),
    ensures
        dispatch(catalog, visitor.fields@, key) == Some(slot),
{
    let fields = visitor.fields@;
    lemma_first_answering(catalog, fields, key, true, 0);
    lemma_first_answering(catalog, fields, key, false, 0);
    match dispatch(catalog, fields, key) {
        Some(found) => {
            assert(answers(catalog, fields[found], key));
            if found < slot {
                assert(!(answers(catalog, fields[found], key) && answers(
                    catalog,
                    fields[slot],
                    key,
                )));
            } else if slot < found {
                assert(!(answers(catalog, fields[slot], key) && answers(
                    catalog,
                    fields[found],
                    key,
                )));
            }
        },
        None => {},
    }
}

} // verus!
