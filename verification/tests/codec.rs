use prost_serde_derive::catalog::{Catalog, EnumRegistry, EnumVariant};
use prost_serde_derive::decode::{decode, decode_enumeration, decode_oneof};
use prost_serde_derive::deserialize::{expand_deserialize, Deserializer};
use prost_serde_derive::encode::{encode, encode_enumeration, encode_oneof};
use prost_serde_derive::json::{JsonValue, Member, Number};
use prost_serde_derive::message::{
    DecodeError, EncodeError, FieldValue, Message, OneofValue, Value,
};
use prost_serde_derive::serialize::{expand_serialize, Serializer};
use prost_serde_derive::syntax::{
    AttrBody, Attribute, Data, DataEnum, DataStruct, DeriveInput, Expr, Field, Fields, Ident, Meta,
    MetaNameValue, Path, Span, Variant,
};
use serde::de::{DeserializeSeed, MapAccess, SeqAccess, Visitor};
use serde::ser::{SerializeMap, SerializeSeq};

// ---- JSON text, read and written with serde_json ----

struct Seed;

impl<'de> DeserializeSeed<'de> for Seed {
    type Value = JsonValue;

    fn deserialize<D: serde::Deserializer<'de>>(self, d: D) -> Result<JsonValue, D::Error> {
        d.deserialize_any(Reader)
    }
}

struct Reader;

impl<'de> Visitor<'de> for Reader {
    type Value = JsonValue;

    fn expecting(&self, f: &mut std::fmt::Formatter) -> std::fmt::Result {
        f.write_str("a JSON value")
    }

    fn visit_bool<E>(self, v: bool) -> Result<JsonValue, E> {
        Ok(JsonValue::Bool(v))
    }

    fn visit_i64<E>(self, v: i64) -> Result<JsonValue, E> {
        Ok(JsonValue::Number(if v < 0 { Number::NegInt(v) } else { Number::PosInt(v as u64) }))
    }

    fn visit_u64<E>(self, v: u64) -> Result<JsonValue, E> {
        Ok(JsonValue::Number(Number::PosInt(v)))
    }

    fn visit_f64<E>(self, v: f64) -> Result<JsonValue, E> {
        Ok(JsonValue::Number(Number::Float(v.to_bits())))
    }

    fn visit_str<E>(self, v: &str) -> Result<JsonValue, E> {
        Ok(JsonValue::String(v.to_string()))
    }

    fn visit_unit<E>(self) -> Result<JsonValue, E> {
        Ok(JsonValue::Null)
    }

    fn visit_seq<A: SeqAccess<'de>>(self, mut seq: A) -> Result<JsonValue, A::Error> {
        let mut items = Vec::new();
        while let Some(item) = seq.next_element_seed(Seed)? {
            items.push(item);
        }
        Ok(JsonValue::Array(items))
    }

    fn visit_map<A: MapAccess<'de>>(self, mut map: A) -> Result<JsonValue, A::Error> {
        let mut members = Vec::new();
        while let Some(key) = map.next_key::<String>()? {
            let value = map.next_value_seed(Seed)?;
            members.push(Member { key, value });
        }
        Ok(JsonValue::Object(members))
    }
}

fn parse(text: &str) -> JsonValue {
    let mut de = serde_json::Deserializer::from_str(text);
    let value = Seed.deserialize(&mut de).unwrap();
    de.end().unwrap();
    value
}

struct Writer<'a>(&'a JsonValue);

impl<'a> serde::Serialize for Writer<'a> {
    fn serialize<S: serde::Serializer>(&self, s: S) -> Result<S::Ok, S::Error> {
        match self.0 {
            JsonValue::Null => s.serialize_unit(),
            JsonValue::Bool(b) => s.serialize_bool(*b),
            JsonValue::Number(Number::PosInt(n)) => s.serialize_u64(*n),
            JsonValue::Number(Number::NegInt(n)) => s.serialize_i64(*n),
            JsonValue::Number(Number::Float(bits)) => s.serialize_f64(f64::from_bits(*bits)),
            JsonValue::String(text) => s.serialize_str(text),
            JsonValue::Array(items) => {
                let mut seq = s.serialize_seq(Some(items.len()))?;
                for item in items {
                    seq.serialize_element(&Writer(item))?;
                }
                seq.end()
            }
            JsonValue::Object(members) => {
                let mut map = s.serialize_map(Some(members.len()))?;
                for member in members {
                    map.serialize_entry(&member.key, &Writer(&member.value))?;
                }
                map.end()
            }
        }
    }
}

fn print(value: &JsonValue) -> String {
    serde_json::to_string(&Writer(value)).unwrap()
}

fn without_null_members(members: Vec<Member>, deep: bool) -> Vec<Member> {
    let mut kept = Vec::new();
    for member in members {
        match member.value {
            JsonValue::Null => {}
            JsonValue::Object(inner) if deep => kept.push(Member {
                key: member.key,
                value: JsonValue::Object(without_null_members(inner, false)),
            }),
            value => kept.push(Member { key: member.key, value }),
        }
    }
    kept
}

fn drop_null(text: &str) -> String {
    match parse(text) {
        JsonValue::Object(members) => print(&JsonValue::Object(without_null_members(members, true))),
        other => print(&other),
    }
}

// ---- declarations ----

fn at() -> Span {
    Span { line: 1, column: 1 }
}

fn ident(name: &str) -> Ident {
    Ident { span: at(), name: name.to_string() }
}

fn bare(name: &str) -> Path {
    Path { span: at(), leading_colon: false, segments: vec![name.to_string()], arguments: false }
}

fn global(first: &str, second: &str) -> Path {
    Path {
        span: at(),
        leading_colon: true,
        segments: vec![first.to_string(), second.to_string()],
        arguments: false,
    }
}

fn flag(name: &str) -> Meta {
    Meta::Path(bare(name))
}

fn pair(name: &str, value: &str) -> Meta {
    Meta::NameValue(MetaNameValue {
        path: bare(name),
        value: Expr { span: at(), literal: Some(value.to_string()) },
    })
}

fn list(name: &str, metas: Vec<Meta>) -> Attribute {
    Attribute { path: bare(name), body: AttrBody::List(Some(metas)) }
}

fn field(name: &str, ty: &str, metas: Vec<Meta>) -> Field {
    Field {
        span: at(),
        ident: Some(ident(name)),
        ty: ty.to_string(),
        attrs: vec![list("prost", metas)],
    }
}

fn variant(name: &str, ty: &str, metas: Vec<Meta>) -> Variant {
    Variant { ident: ident(name), ty: ty.to_string(), attrs: vec![list("prost", metas)] }
}

fn message(name: &str, switches: &[&str], fields: Vec<Field>) -> DeriveInput {
    let mut attrs = vec![list(
        "derive",
        vec![flag("Clone"), Meta::Path(global("prost", "Message"))],
    )];
    if !switches.is_empty() {
        attrs.push(list("prost_serde_derive", switches.iter().map(|s| flag(s)).collect()));
    }
    DeriveInput {
        attrs,
        ident: ident(name),
        data: Data::Struct(DataStruct { struct_token: at(), fields: Fields::Named(fields) }),
    }
}

fn oneof(name: &str, variants: Vec<Variant>) -> DeriveInput {
    DeriveInput {
        attrs: vec![list("derive", vec![Meta::Path(global("prost", "Oneof"))])],
        ident: ident(name),
        data: Data::Enum(DataEnum { enum_token: at(), variants }),
    }
}

fn register(catalog: &mut Catalog, input: &DeriveInput) {
    let read = expand_deserialize(input).unwrap().deserializer;
    let written = expand_serialize(input).unwrap().serializer;
    match (read, written) {
        (Deserializer::Struct(visitor), Serializer::Struct(serializer)) => {
            catalog.add_message(visitor, serializer)
        }
        (Deserializer::Oneof(registry), Serializer::Oneof(same)) => {
            assert_eq!(registry, same);
            catalog.add_oneof(registry)
        }
        (read, written) => panic!("{:?} {:?}", read, written),
    }
}

fn enumeration(name: &str, variants: &[(&str, i32)]) -> EnumRegistry {
    EnumRegistry {
        name: name.to_string(),
        variants: variants
            .iter()
            .map(|(name, value)| EnumVariant { name: name.to_string(), value: *value })
            .collect(),
    }
}

fn catalog() -> Catalog {
    let mut catalog = Catalog::new();
    catalog.add_enumeration(enumeration(
        "Language",
        &[("LANGUAGE_UNSPECIFIED", 0), ("LANGUAGE_ENGLISH", 1), ("LANGUAGE_KOREAN", 2)],
    ));
    catalog.add_enumeration(enumeration(
        "Notification",
        &[("NOTIFICATION_UNSPECIFIED", 0), ("NOTIFICATION_EMAIL", 1), ("NOTIFICATION_SMS", 2)],
    ));
    register(&mut catalog, &message("Empty", &[], vec![]));
    register(
        &mut catalog,
        &message(
            "Primitive",
            &[],
            vec![
                field("id", "i32", vec![flag("int32"), pair("tag", "1")]),
                field("timestamp", "i64", vec![flag("int64"), pair("tag", "2")]),
                field("name", "String", vec![flag("string"), pair("tag", "3")]),
                field("hashed_password", "Vec", vec![pair("bytes", "vec"), pair("tag", "4")]),
                field("is_active", "bool", vec![flag("bool"), pair("tag", "5")]),
            ],
        ),
    );
    register(
        &mut catalog,
        &message(
            "Optional",
            &[],
            vec![
                field("id", "i32", vec![flag("int32"), flag("optional"), pair("tag", "1")]),
                field("timestamp", "i64", vec![flag("int64"), flag("optional"), pair("tag", "2")]),
                field("name", "String", vec![flag("string"), flag("optional"), pair("tag", "3")]),
                field(
                    "hashed_password",
                    "Vec",
                    vec![pair("bytes", "vec"), flag("optional"), pair("tag", "4")],
                ),
                field("is_active", "bool", vec![flag("bool"), flag("optional"), pair("tag", "5")]),
            ],
        ),
    );
    register(
        &mut catalog,
        &message(
            "Repeated",
            &[],
            vec![
                field("id", "i32", vec![flag("int32"), pair("tag", "1")]),
                field("timestamp", "i64", vec![flag("int64"), pair("tag", "2")]),
                field("names", "String", vec![flag("string"), flag("repeated"), pair("tag", "3")]),
                field(
                    "hashed_password",
                    "Vec",
                    vec![pair("bytes", "vec"), flag("repeated"), pair("tag", "4")],
                ),
                field("is_active", "bool", vec![flag("bool"), flag("optional"), pair("tag", "5")]),
            ],
        ),
    );
    register(
        &mut catalog,
        &message(
            "Enum",
            &[],
            vec![
                field("language", "i32", vec![pair("enumeration", "Language"), pair("tag", "1")]),
                field(
                    "notification",
                    "i32",
                    vec![pair("enumeration", "Notification"), flag("optional"), pair("tag", "2")],
                ),
                field(
                    "sub_notification",
                    "i32",
                    vec![pair("enumeration", "Notification"), flag("optional"), pair("tag", "3")],
                ),
            ],
        ),
    );
    register(
        &mut catalog,
        &message(
            "Address",
            &[],
            vec![
                field("street", "String", vec![flag("string"), flag("optional"), pair("tag", "1")]),
                field("city", "String", vec![flag("string"), flag("optional"), pair("tag", "2")]),
                field("state", "String", vec![flag("string"), pair("tag", "3")]),
            ],
        ),
    );
    register(
        &mut catalog,
        &message(
            "PostCode",
            &[],
            vec![field("code", "String", vec![flag("string"), pair("tag", "1")])],
        ),
    );
    register(
        &mut catalog,
        &message(
            "Message",
            &[],
            vec![
                field("address", "Address", vec![flag("message"), flag("optional"), pair("tag", "1")]),
                field(
                    "post_code",
                    "PostCode",
                    vec![flag("message"), flag("optional"), pair("tag", "2")],
                ),
            ],
        ),
    );
    register(
        &mut catalog,
        &message(
            "Cat",
            &[],
            vec![
                field("name", "String", vec![flag("string"), pair("tag", "1")]),
                field("color", "String", vec![flag("string"), pair("tag", "2")]),
            ],
        ),
    );
    register(
        &mut catalog,
        &message(
            "Dog",
            &[],
            vec![field("name", "String", vec![flag("string"), pair("tag", "1")])],
        ),
    );
    register(
        &mut catalog,
        &oneof(
            "Animal",
            vec![
                variant("Cat", "Cat", vec![flag("message"), pair("tag", "3")]),
                variant("Dog", "Dog", vec![flag("message"), pair("tag", "4")]),
            ],
        ),
    );
    register(
        &mut catalog,
        &message(
            "Oneof",
            &[],
            vec![
                field("is_wild", "bool", vec![flag("bool"), flag("optional"), pair("tag", "1")]),
                field("age", "i32", vec![flag("int32"), flag("optional"), pair("tag", "2")]),
                field("animal", "Animal", vec![pair("oneof", "Animal"), pair("tags", "3, 4")]),
            ],
        ),
    );
    register(
        &mut catalog,
        &message(
            "Options",
            &["omit_type_errors", "use_default_for_missing_fields", "ignore_unknown_fields"],
            vec![
                field("address", "String", vec![flag("string"), pair("tag", "1")]),
                field(
                    "post_code",
                    "PostCode",
                    vec![flag("message"), flag("optional"), pair("tag", "2")],
                ),
                field("is_valid", "bool", vec![flag("bool"), pair("tag", "3")]),
            ],
        ),
    );
    register(
        &mut catalog,
        &message(
            "User",
            &[],
            vec![
                field("id", "i32", vec![flag("int32"), pair("tag", "1")]),
                field("name", "String", vec![flag("string"), flag("optional"), pair("tag", "2")]),
            ],
        ),
    );
    catalog
}

fn string(s: &str) -> Value {
    Value::String(s.to_string())
}

fn number(n: u64) -> Value {
    Value::Number(Number::PosInt(n))
}

fn read(name: &str, json: &str) -> Result<Message, DecodeError> {
    decode(&catalog(), &name.to_string(), &parse(json))
}

fn write(name: &str, message: &Message) -> Result<String, EncodeError> {
    encode(&catalog(), &name.to_string(), message).map(|json| print(&json))
}

fn round_trip_from_json(name: &str, json: &str, is_drop_null: bool) -> String {
    let json = if is_drop_null { drop_null(json) } else { json.to_string() };
    let result = write(name, &read(name, &json).unwrap()).unwrap();
    if is_drop_null {
        drop_null(&result)
    } else {
        result
    }
}

fn round_trip_from_message(name: &str, message: &Message, is_drop_null: bool) -> Message {
    let json = write(name, message).unwrap();
    let json = if is_drop_null { drop_null(&json) } else { json };
    read(name, &json).unwrap()
}

fn check_all(name: &str, json: &str, message: Message) {
    assert_eq!(write(name, &message).unwrap(), json);
    assert_eq!(read(name, json).unwrap(), message);
    assert_eq!(round_trip_from_json(name, json, false), json);
    assert_eq!(round_trip_from_message(name, &message, false), message);
    assert_eq!(round_trip_from_json(name, json, true), drop_null(json));
    assert_eq!(round_trip_from_message(name, &message, true), message);
}

// ---- the messages of the catalog, each written, read and sent round ----

#[test]
fn empty() {
    check_all("Empty", r#"{}"#, Message { fields: vec![] });
}

#[test]
fn primitive() {
    check_all(
        "Primitive",
        r#"{"id":39,"timestamp":100000000000000,"name":"name","hashed_password":"/+I/","is_active":true}"#,
        Message {
            fields: vec![
                FieldValue::Single(number(39)),
                FieldValue::Single(number(100000000000000)),
                FieldValue::Single(string("name")),
                FieldValue::Single(Value::Bytes(vec![0xff, 0xe2, 0x3f])),
                FieldValue::Single(Value::Bool(true)),
            ],
        },
    );
}

#[test]
fn optional() {
    check_all(
        "Optional",
        r#"{"id":39,"timestamp":100000000000000,"name":"name","hashed_password":null,"is_active":null}"#,
        Message {
            fields: vec![
                FieldValue::Optional(Some(number(39))),
                FieldValue::Optional(Some(number(100000000000000))),
                FieldValue::Optional(Some(string("name"))),
                FieldValue::Optional(None),
                FieldValue::Optional(None),
            ],
        },
    );
}

#[test]
fn repeated() {
    check_all(
        "Repeated",
        r#"{"id":39,"timestamp":100000000000000,"names":["name","is","not","a","name"],"hashed_password":[],"is_active":true}"#,
        Message {
            fields: vec![
                FieldValue::Single(number(39)),
                FieldValue::Single(number(100000000000000)),
                FieldValue::Repeated(vec![
                    string("name"),
                    string("is"),
                    string("not"),
                    string("a"),
                    string("name"),
                ]),
                FieldValue::Repeated(vec![]),
                FieldValue::Optional(Some(Value::Bool(true))),
            ],
        },
    );
}

#[test]
fn enums() {
    check_all(
        "Enum",
        r#"{"language":"LANGUAGE_ENGLISH","notification":"NOTIFICATION_EMAIL","sub_notification":null}"#,
        Message {
            fields: vec![
                FieldValue::Single(Value::Enumeration(1)),
                FieldValue::Optional(Some(Value::Enumeration(1))),
                FieldValue::Optional(None),
            ],
        },
    );
}

#[test]
fn nested_message() {
    check_all(
        "Message",
        r#"{"address":{"street":null,"city":"city","state":"state"},"post_code":null}"#,
        Message {
            fields: vec![
                FieldValue::Optional(Some(Value::Message(Message {
                    fields: vec![
                        FieldValue::Optional(None),
                        FieldValue::Optional(Some(string("city"))),
                        FieldValue::Single(string("state")),
                    ],
                }))),
                FieldValue::Optional(None),
            ],
        },
    );
}

#[test]
fn oneof_in_message() {
    check_all(
        "Oneof",
        r#"{"is_wild":true,"age":null,"cat":{"name":"name","color":"color"}}"#,
        Message {
            fields: vec![
                FieldValue::Optional(Some(Value::Bool(true))),
                FieldValue::Optional(None),
                FieldValue::Oneof(Some(OneofValue {
                    variant: 0,
                    value: Value::Message(Message {
                        fields: vec![FieldValue::Single(string("name")), FieldValue::Single(string("color"))],
                    }),
                })),
            ],
        },
    );
}

#[test]
fn options() {
    const UNKNOWN_JSON: &str = r#"{"post_code":null,"is_valid":"FFFF","phone": "+1 10-1234-5678"}"#;
    let message = read("Options", UNKNOWN_JSON).unwrap();
    assert_eq!(
        message,
        Message {
            fields: vec![
                FieldValue::Single(string("")),
                FieldValue::Optional(None),
                FieldValue::Single(Value::Bool(false)),
            ],
        }
    );
}

// ---- scenarios ----

#[test]
fn oneof_alone_is_an_object_of_one_member() {
    let catalog = catalog();
    let registry = catalog.oneofs.iter().find(|r| r.name == "Animal").unwrap();
    let json = r#"{"cat":{"name":"n","color":"c"}}"#;
    let active = decode_oneof(&catalog, registry, &parse(json)).unwrap();
    assert_eq!(
        active,
        OneofValue {
            variant: 0,
            value: Value::Message(Message {
                fields: vec![FieldValue::Single(string("n")), FieldValue::Single(string("c"))],
            }),
        }
    );
    assert_eq!(print(&encode_oneof(&catalog, registry, &active).unwrap()), json);
}

#[test]
fn oneof_alone_takes_one_member_only() {
    let catalog = catalog();
    let registry = catalog.oneofs.iter().find(|r| r.name == "Animal").unwrap();
    assert_eq!(decode_oneof(&catalog, registry, &parse("{}")), Err(DecodeError::TypeMismatch));
    assert_eq!(
        decode_oneof(&catalog, registry, &parse(r#"{"cat":{"name":"n","color":"c"},"dog":{"name":"d"}}"#)),
        Err(DecodeError::TypeMismatch)
    );
    assert_eq!(decode_oneof(&catalog, registry, &parse(r#""cat""#)), Err(DecodeError::TypeMismatch));
    assert_eq!(
        decode_oneof(&catalog, registry, &parse(r#"{"wolf":{}}"#)),
        Err(DecodeError::UnknownField("wolf".to_string()))
    );
}

#[test]
fn null_is_an_absent_optional_value() {
    let message = read("User", r#"{"id":39,"name":null}"#).unwrap();
    assert_eq!(
        message,
        Message { fields: vec![FieldValue::Single(number(39)), FieldValue::Optional(None)] }
    );
    assert_eq!(write("User", &message).unwrap(), r#"{"id":39,"name":null}"#);
}

#[test]
fn absent_optional_and_repeated_fields_are_never_missing() {
    assert_eq!(
        read("User", r#"{"id":39}"#).unwrap(),
        Message { fields: vec![FieldValue::Single(number(39)), FieldValue::Optional(None)] }
    );
    assert_eq!(
        read("Repeated", r#"{"id":1,"timestamp":2}"#).unwrap(),
        Message {
            fields: vec![
                FieldValue::Single(number(1)),
                FieldValue::Single(number(2)),
                FieldValue::Repeated(vec![]),
                FieldValue::Repeated(vec![]),
                FieldValue::Optional(None),
            ],
        }
    );
    assert_eq!(
        read("Oneof", r#"{}"#).unwrap(),
        Message {
            fields: vec![
                FieldValue::Optional(None),
                FieldValue::Optional(None),
                FieldValue::Oneof(None),
            ],
        }
    );
}

#[test]
fn unset_oneof_is_not_written() {
    let message = Message {
        fields: vec![FieldValue::Optional(None), FieldValue::Optional(None), FieldValue::Oneof(None)],
    };
    assert_eq!(write("Oneof", &message).unwrap(), r#"{"is_wild":null,"age":null}"#);
}

#[test]
fn keys_are_written_in_the_order_of_declaration() {
    let message = read(
        "Primitive",
        r#"{"is_active":false,"hashed_password":"","name":"n","timestamp":-5,"id":-1}"#,
    )
    .unwrap();
    assert_eq!(
        write("Primitive", &message).unwrap(),
        r#"{"id":-1,"timestamp":-5,"name":"n","hashed_password":"","is_active":false}"#
    );
}

// ---- errors ----

#[test]
fn missing_required_field_is_an_error_when_strict() {
    assert_eq!(
        read("Primitive", r#"{"id":39}"#),
        Err(DecodeError::MissingField("timestamp".to_string()))
    );
}

#[test]
fn missing_required_field_takes_its_zero_value_by_policy() {
    assert_eq!(
        read("Options", r#"{}"#).unwrap(),
        Message {
            fields: vec![
                FieldValue::Single(string("")),
                FieldValue::Optional(None),
                FieldValue::Single(Value::Bool(false)),
            ],
        }
    );
}

#[test]
fn unknown_key_is_an_error_when_strict() {
    assert_eq!(
        read("User", r#"{"id":39,"phone":"1"}"#),
        Err(DecodeError::UnknownField("phone".to_string()))
    );
}

#[test]
fn unknown_key_is_skipped_by_policy() {
    assert_eq!(
        read("Options", r#"{"phone":{"a":[1,2]},"address":"x","is_valid":true}"#).unwrap(),
        Message {
            fields: vec![
                FieldValue::Single(string("x")),
                FieldValue::Optional(None),
                FieldValue::Single(Value::Bool(true)),
            ],
        }
    );
}

#[test]
fn duplicate_key_is_an_error_under_every_policy() {
    assert_eq!(
        read("User", r#"{"id":39,"id":40}"#),
        Err(DecodeError::DuplicateField("id".to_string()))
    );
    assert_eq!(
        read("User", r#"{"id":1,"name":null,"name":"x"}"#),
        Err(DecodeError::DuplicateField("name".to_string()))
    );
    assert_eq!(
        read("Options", r#"{"is_valid":true,"is_valid":true}"#),
        Err(DecodeError::DuplicateField("is_valid".to_string()))
    );
    assert_eq!(
        read("Options", r#"{"is_valid":"FFFF","is_valid":true}"#),
        Err(DecodeError::DuplicateField("is_valid".to_string()))
    );
}

#[test]
fn two_variants_of_one_oneof_are_a_duplicate() {
    assert_eq!(
        read("Oneof", r#"{"cat":{"name":"n","color":"c"},"dog":{"name":"d"}}"#),
        Err(DecodeError::DuplicateField("animal".to_string()))
    );
}

#[test]
fn the_name_of_a_oneof_field_is_no_key() {
    assert_eq!(
        read("Oneof", r#"{"animal":{"cat":{"name":"n","color":"c"}}}"#),
        Err(DecodeError::UnknownField("animal".to_string()))
    );
}

#[test]
fn wrong_shape_is_a_type_mismatch_when_strict() {
    assert_eq!(read("User", r#"{"id":"39"}"#), Err(DecodeError::TypeMismatch));
    assert_eq!(read("User", r#"{"id":39.5}"#), Err(DecodeError::TypeMismatch));
    assert_eq!(read("User", r#"{"id":2147483648}"#), Err(DecodeError::TypeMismatch));
    assert_eq!(read("User", r#"{"id":null}"#), Err(DecodeError::TypeMismatch));
    assert_eq!(read("User", r#"{"id":1,"name":5}"#), Err(DecodeError::TypeMismatch));
    assert_eq!(read("User", r#"[]"#), Err(DecodeError::TypeMismatch));
    assert_eq!(
        read("Repeated", r#"{"id":1,"timestamp":2,"names":["a",1]}"#),
        Err(DecodeError::TypeMismatch)
    );
    assert_eq!(
        read("Repeated", r#"{"id":1,"timestamp":2,"names":null}"#),
        Err(DecodeError::TypeMismatch)
    );
}

#[test]
fn numbers_at_the_ends_of_their_range() {
    assert_eq!(
        read("User", r#"{"id":2147483647}"#).unwrap().fields[0],
        FieldValue::Single(number(2147483647))
    );
    assert_eq!(
        read("User", r#"{"id":-2147483648}"#).unwrap().fields[0],
        FieldValue::Single(Value::Number(Number::NegInt(-2147483648)))
    );
    assert_eq!(read("User", r#"{"id":-2147483649}"#), Err(DecodeError::TypeMismatch));
}

#[test]
fn unknown_variant_is_never_omitted() {
    assert_eq!(
        read("Enum", r#"{"language":"LANGUAGE_LATIN"}"#),
        Err(DecodeError::UnknownVariant("LANGUAGE_LATIN".to_string()))
    );
    let mut catalog = catalog();
    register(
        &mut catalog,
        &message(
            "Lenient",
            &["omit_type_errors", "use_default_for_missing_fields", "ignore_unknown_fields"],
            vec![
                field("language", "i32", vec![pair("enumeration", "Language"), pair("tag", "1")]),
                field("key", "Vec", vec![pair("bytes", "vec"), pair("tag", "2")]),
            ],
        ),
    );
    let name = "Lenient".to_string();
    assert_eq!(
        decode(&catalog, &name, &parse(r#"{"language":"language_english"}"#)),
        Err(DecodeError::UnknownVariant("language_english".to_string()))
    );
    assert_eq!(
        decode(&catalog, &name, &parse(r#"{"key":"***"}"#)),
        Err(DecodeError::InvalidBytes("***".to_string()))
    );
    assert_eq!(
        decode(&catalog, &name, &parse(r#"{"language":7,"key":false}"#)).unwrap(),
        Message {
            fields: vec![
                FieldValue::Single(Value::Enumeration(0)),
                FieldValue::Single(Value::Bytes(vec![])),
            ],
        }
    );
}

#[test]
fn omitted_type_error_of_an_optional_field_leaves_the_zero_value() {
    let mut catalog = catalog();
    register(
        &mut catalog,
        &message(
            "Lenient",
            &["omit_type_errors"],
            vec![
                field("age", "i32", vec![flag("int32"), flag("optional"), pair("tag", "1")]),
                field("names", "String", vec![flag("string"), flag("repeated"), pair("tag", "2")]),
            ],
        ),
    );
    assert_eq!(
        decode(&catalog, &"Lenient".to_string(), &parse(r#"{"age":"x","names":[1]}"#)).unwrap(),
        Message {
            fields: vec![FieldValue::Optional(Some(number(0))), FieldValue::Repeated(vec![])],
        }
    );
}

#[test]
fn unmapped_discriminant_is_an_encode_error() {
    let message = Message {
        fields: vec![
            FieldValue::Single(Value::Enumeration(9)),
            FieldValue::Optional(None),
            FieldValue::Optional(None),
        ],
    };
    assert_eq!(write("Enum", &message), Err(EncodeError::InvalidEnumValue(9)));
}

#[test]
fn message_of_another_shape_is_a_mismatch() {
    assert_eq!(write("User", &Message { fields: vec![] }), Err(EncodeError::Mismatch));
    assert_eq!(
        write(
            "User",
            &Message { fields: vec![FieldValue::Single(string("x")), FieldValue::Optional(None)] }
        ),
        Err(EncodeError::Mismatch)
    );
    assert_eq!(
        write(
            "User",
            &Message { fields: vec![FieldValue::Optional(None), FieldValue::Optional(None)] }
        ),
        Err(EncodeError::Mismatch)
    );
}

#[test]
fn a_type_that_the_catalog_lacks_is_unresolved() {
    assert_eq!(read("Nothing", "{}"), Err(DecodeError::Unresolved));
    assert_eq!(write("Nothing", &Message { fields: vec![] }), Err(EncodeError::Unresolved));
}

// ---- enumerations ----

#[test]
fn enumeration_round_trip() {
    let registry = enumeration("Language", &[("LANGUAGE_UNSPECIFIED", 0), ("LANGUAGE_ENGLISH", 1)]);
    for n in [0, 1] {
        let json = encode_enumeration(&registry, n).unwrap();
        assert_eq!(decode_enumeration(&registry, &json), Ok(n));
    }
    assert_eq!(
        encode_enumeration(&registry, 1),
        Ok(JsonValue::String("LANGUAGE_ENGLISH".to_string()))
    );
    assert_eq!(
        decode_enumeration(&registry, &JsonValue::String("ACTIVATION_NON_EXISTENT".to_string())),
        Err(DecodeError::UnknownVariant("ACTIVATION_NON_EXISTENT".to_string()))
    );
    assert_eq!(
        decode_enumeration(&registry, &JsonValue::Number(Number::PosInt(1))),
        Err(DecodeError::TypeMismatch)
    );
    assert_eq!(encode_enumeration(&registry, 5), Err(EncodeError::InvalidEnumValue(5)));
    assert_eq!(registry.default_value(), 0);
}

#[test]
fn decode_of_encode_of_decode_is_decode() {
    let json = r#"{"timestamp": 7, "id": 1, "name": "", "is_active": false, "hashed_password": "aGVsbG8="}"#;
    let first = read("Primitive", json).unwrap();
    let second = read("Primitive", &write("Primitive", &first).unwrap()).unwrap();
    assert_eq!(first, second);
}

// ---- the catalog ----

#[test]
fn the_catalog_is_well_formed() {
    assert!(catalog().check());
    assert!(Catalog::new().check());
}

#[test]
fn a_key_of_two_fields_is_refused() {
    let mut catalog = catalog();
    register(
        &mut catalog,
        &message(
            "Clash",
            &[],
            vec![
                field("cat", "String", vec![flag("string"), flag("optional"), pair("tag", "1")]),
                field("animal", "Animal", vec![pair("oneof", "Animal"), pair("tags", "3, 4")]),
            ],
        ),
    );
    assert!(!catalog.check());
    // The key of a variant leads to the oneof, also where a field has that name.
    assert_eq!(
        decode(&catalog, &"Clash".to_string(), &parse(r#"{"cat":{"name":"n","color":"c"}}"#))
            .unwrap()
            .fields[0],
        FieldValue::Optional(None)
    );
}

#[test]
fn a_field_name_given_twice_is_refused() {
    let mut catalog = catalog();
    register(
        &mut catalog,
        &message(
            "Twice",
            &[],
            vec![
                field("id", "i32", vec![flag("int32"), pair("tag", "1")]),
                field("id", "i32", vec![flag("int32"), pair("tag", "2")]),
            ],
        ),
    );
    assert!(!catalog.check());
}

#[test]
fn an_enumeration_needs_distinct_variants() {
    let mut none = Catalog::new();
    none.enumerations.push(enumeration("Empty", &[]));
    assert!(!none.check());
    let mut names = Catalog::new();
    names.enumerations.push(enumeration("Names", &[("A", 0), ("A", 1)]));
    assert!(!names.check());
    let mut values = Catalog::new();
    values.enumerations.push(enumeration("Values", &[("A", 0), ("B", 0)]));
    assert!(!values.check());
    assert!(!enumeration("Values", &[("A", 0), ("B", 0)]).check());
    assert!(enumeration("Values", &[("A", 0), ("B", 1)]).check());
}

#[test]
fn a_default_that_cannot_be_written_is_refused() {
    let mut catalog = Catalog::new();
    register(
        &mut catalog,
        &message(
            "Dangling",
            &["use_default_for_missing_fields"],
            vec![field("language", "i32", vec![pair("enumeration", "Nowhere"), pair("tag", "1")])],
        ),
    );
    assert!(!catalog.check());
    assert_eq!(
        decode(&catalog, &"Dangling".to_string(), &parse(r#"{"language":"X"}"#)),
        Err(DecodeError::Unresolved)
    );
}

#[test]
fn tables_of_different_messages_are_refused() {
    let mut catalog = Catalog::new();
    let user = message(
        "User",
        &[],
        vec![field("id", "i32", vec![flag("int32"), pair("tag", "1")])],
    );
    let other = message(
        "User",
        &[],
        vec![field("id", "i64", vec![flag("int64"), pair("tag", "1")])],
    );
    if let Deserializer::Struct(visitor) = expand_deserialize(&user).unwrap().deserializer {
        catalog.visitors.push(visitor);
    }
    assert!(!catalog.check());
    if let Serializer::Struct(serializer) = expand_serialize(&other).unwrap().serializer {
        catalog.serializers.push(serializer);
    }
    assert!(!catalog.check());
}

#[test]
fn a_required_message_that_is_missing_is_the_message_of_zero_values() {
    let mut catalog = catalog();
    register(
        &mut catalog,
        &message(
            "Home",
            &["use_default_for_missing_fields"],
            vec![field("address", "Address", vec![flag("message"), pair("tag", "1")])],
        ),
    );
    assert!(catalog.check());
    let home = decode(&catalog, &"Home".to_string(), &parse("{}")).unwrap();
    assert_eq!(
        home,
        Message {
            fields: vec![FieldValue::Single(Value::Message(Message {
                fields: vec![
                    FieldValue::Optional(None),
                    FieldValue::Optional(None),
                    FieldValue::Single(string("")),
                ],
            }))],
        }
    );
    assert_eq!(
        print(&encode(&catalog, &"Home".to_string(), &home).unwrap()),
        r#"{"address":{"street":null,"city":null,"state":""}}"#
    );
}

#[test]
fn floats_take_every_number() {
    let mut catalog = Catalog::new();
    register(
        &mut catalog,
        &message(
            "Point",
            &["use_default_for_missing_fields"],
            vec![
                field("x", "f32", vec![flag("float"), pair("tag", "1")]),
                field("y", "f64", vec![flag("double"), pair("tag", "2")]),
                field("z", "f64", vec![flag("double"), pair("tag", "3")]),
            ],
        ),
    );
    let name = "Point".to_string();
    let point = decode(&catalog, &name, &parse(r#"{"x":1,"y":-2.5}"#)).unwrap();
    assert_eq!(
        point,
        Message {
            fields: vec![
                FieldValue::Single(number(1)),
                FieldValue::Single(Value::Number(Number::Float((-2.5f64).to_bits()))),
                FieldValue::Single(Value::Number(Number::Float(0))),
            ],
        }
    );
    assert_eq!(print(&encode(&catalog, &name, &point).unwrap()), r#"{"x":1,"y":-2.5,"z":0.0}"#);
    assert_eq!(
        decode(&catalog, &name, &parse(r#"{"x":"1"}"#)),
        Err(DecodeError::TypeMismatch)
    );
}

#[test]
fn fixed_takes_the_signed_and_the_unsigned_range() {
    let mut catalog = Catalog::new();
    register(
        &mut catalog,
        &message(
            "Fixed",
            &[],
            vec![
                field("a", "u32", vec![flag("fixed32"), flag("optional"), pair("tag", "1")]),
                field("b", "u32", vec![flag("uint32"), flag("optional"), pair("tag", "2")]),
                field("c", "u64", vec![flag("uint64"), flag("optional"), pair("tag", "3")]),
                field("d", "i64", vec![flag("sfixed64"), flag("optional"), pair("tag", "4")]),
            ],
        ),
    );
    let name = "Fixed".to_string();
    assert!(decode(&catalog, &name, &parse(r#"{"a":-2147483648}"#)).is_ok());
    assert!(decode(&catalog, &name, &parse(r#"{"a":4294967295}"#)).is_ok());
    assert_eq!(
        decode(&catalog, &name, &parse(r#"{"a":4294967296}"#)),
        Err(DecodeError::TypeMismatch)
    );
    assert_eq!(decode(&catalog, &name, &parse(r#"{"b":-1}"#)), Err(DecodeError::TypeMismatch));
    assert!(decode(&catalog, &name, &parse(r#"{"b":4294967295}"#)).is_ok());
    assert!(decode(&catalog, &name, &parse(r#"{"c":18446744073709551615}"#)).is_ok());
    assert_eq!(decode(&catalog, &name, &parse(r#"{"c":-1}"#)), Err(DecodeError::TypeMismatch));
    assert!(decode(&catalog, &name, &parse(r#"{"d":-9223372036854775808}"#)).is_ok());
    assert!(decode(&catalog, &name, &parse(r#"{"d":18446744073709551615}"#)).is_ok());
}

#[test]
fn depth_counts_arrays_and_objects() {
    assert!(parse("1").within_depth(0));
    assert!(!parse("[]").within_depth(0));
    assert!(parse("[]").within_depth(1));
    assert!(parse(r#"{"a":[1,{"b":null}]}"#).within_depth(3));
    assert!(!parse(r#"{"a":[1,{"b":null}]}"#).within_depth(2));
    assert!(!parse(r#"{"a":1,"b":[[]]}"#).within_depth(2));
}

// ---- a lenient message with enumerations, bytes and defaults ----

fn users() -> Catalog {
    let mut catalog = Catalog::new();
    catalog.add_enumeration(enumeration(
        "Activation",
        &[
            ("ACTIVATION_UNSPECIFIED", 0),
            ("ACTIVATION_REQUESTED", 1),
            ("ACTIVATION_ACTIVATED", 2),
            ("ACTIVATION_REVOKED", 3),
        ],
    ));
    catalog.add_enumeration(enumeration(
        "UserType",
        &[("USER_TYPE_UNSPECIFIED", 0), ("USER_TYPE_REGULAR", 1), ("USER_TYPE_ADMIN", 2)],
    ));
    catalog.add_enumeration(enumeration(
        "PaidType",
        &[("PAID_TYPE_UNSPECIFIED", 0), ("PAID_TYPE_MONTHLY", 1)],
    ));
    catalog.add_enumeration(enumeration(
        "UserPermission",
        &[
            ("USER_PERMISSION_UNSPECIFIED", 0),
            ("USER_PERMISSION_READ_POSTS", 1),
            ("USER_PERMISSION_WRITE_POSTS", 2),
            ("USER_PERMISSION_UPDATE_POSTS", 3),
        ],
    ));
    register(
        &mut catalog,
        &message(
            "User",
            &["omit_type_errors", "use_default_for_missing_fields"],
            vec![
                field("id", "i32", vec![flag("int32"), pair("tag", "1")]),
                field("name", "String", vec![flag("string"), pair("tag", "2")]),
                field("email", "String", vec![flag("string"), pair("tag", "3")]),
                field("hashed_password", "Vec", vec![pair("bytes", "vec"), pair("tag", "4")]),
                field(
                    "activation",
                    "i32",
                    vec![pair("enumeration", "Activation"), pair("tag", "5")],
                ),
                field("type", "i32", vec![pair("enumeration", "UserType"), pair("tag", "6")]),
                field(
                    "homepage",
                    "String",
                    vec![flag("string"), flag("optional"), pair("tag", "7")],
                ),
                field(
                    "api_keys",
                    "Bytes",
                    vec![pair("bytes", "bytes"), flag("repeated"), pair("tag", "8")],
                ),
                field(
                    "paid_type",
                    "i32",
                    vec![pair("enumeration", "PaidType"), flag("optional"), pair("tag", "9")],
                ),
                field(
                    "permissions",
                    "i32",
                    vec![
                        pair("enumeration", "UserPermission"),
                        flag("repeated"),
                        pair("tag", "10"),
                    ],
                ),
            ],
        ),
    );
    catalog
}

#[test]
fn users_are_read_leniently_and_written_in_full() {
    let catalog = users();
    assert!(catalog.check());
    let name = "User".to_string();
    let u1 = r#"{
        "id": 1,
        "name": "John Doe",
        "email": "johndoe@example.com",
        "hashed_password": "aGVsbG8=",
        "activation": "ACTIVATION_REQUESTED",
        "type": "USER_TYPE_REGULAR",
        "homepage": "https://www.johndoe.com",
        "api_keys": ["YQ==", "Yg=="],
        "paid_type": "PAID_TYPE_MONTHLY"
    }"#;
    let u2 = r#"{
        "id": 2,
        "name": "Jane Doe",
        "email": "janedoe@example.com",
        "hashed_password": "",
        "activation": "ACTIVATION_ACTIVATED",
        "type": "USER_TYPE_ADMIN",
        "api_keys": [],
        "permissions": ["USER_PERMISSION_READ_POSTS", "USER_PERMISSION_WRITE_POSTS"]
    }"#;
    let u3 = r#"{
        "name": "Alan Smithee",
        "email": "alansmithee@example.com",
        "hashed_password": 5,
        "activation": "ACTIVATION_REVOKED",
        "permissions": ["USER_PERMISSION_UPDATE_POSTS"]
    }"#;
    let d1 = decode(&catalog, &name, &parse(u1)).unwrap();
    let d2 = decode(&catalog, &name, &parse(u2)).unwrap();
    let d3 = decode(&catalog, &name, &parse(u3)).unwrap();
    assert_eq!(
        d1,
        Message {
            fields: vec![
                FieldValue::Single(number(1)),
                FieldValue::Single(string("John Doe")),
                FieldValue::Single(string("johndoe@example.com")),
                FieldValue::Single(Value::Bytes(b"hello".to_vec())),
                FieldValue::Single(Value::Enumeration(1)),
                FieldValue::Single(Value::Enumeration(1)),
                FieldValue::Optional(Some(string("https://www.johndoe.com"))),
                FieldValue::Repeated(vec![
                    Value::Bytes(b"a".to_vec()),
                    Value::Bytes(b"b".to_vec())
                ]),
                FieldValue::Optional(Some(Value::Enumeration(1))),
                FieldValue::Repeated(vec![]),
            ],
        }
    );
    assert_eq!(
        print(&encode(&catalog, &name, &d1).unwrap()),
        r#"{"id":1,"name":"John Doe","email":"johndoe@example.com","hashed_password":"aGVsbG8=","activation":"ACTIVATION_REQUESTED","type":"USER_TYPE_REGULAR","homepage":"https://www.johndoe.com","api_keys":["YQ==","Yg=="],"paid_type":"PAID_TYPE_MONTHLY","permissions":[]}"#
    );
    assert_eq!(
        print(&encode(&catalog, &name, &d2).unwrap()),
        r#"{"id":2,"name":"Jane Doe","email":"janedoe@example.com","hashed_password":"","activation":"ACTIVATION_ACTIVATED","type":"USER_TYPE_ADMIN","homepage":null,"api_keys":[],"paid_type":null,"permissions":["USER_PERMISSION_READ_POSTS","USER_PERMISSION_WRITE_POSTS"]}"#
    );
    assert_eq!(
        print(&encode(&catalog, &name, &d3).unwrap()),
        r#"{"id":0,"name":"Alan Smithee","email":"alansmithee@example.com","hashed_password":"","activation":"ACTIVATION_REVOKED","type":"USER_TYPE_UNSPECIFIED","homepage":null,"api_keys":[],"paid_type":null,"permissions":["USER_PERMISSION_UPDATE_POSTS"]}"#
    );
    let activation = &catalog.enumerations[0];
    assert_eq!(decode_enumeration(activation, &parse(r#""ACTIVATION_ACTIVATED""#)), Ok(2));
    assert_eq!(
        decode_enumeration(activation, &parse(r#""ACTIVATION_NON_EXISTENT""#)),
        Err(DecodeError::UnknownVariant("ACTIVATION_NON_EXISTENT".to_string()))
    );
    assert_eq!(print(&encode_enumeration(activation, 3).unwrap()), r#""ACTIVATION_REVOKED""#);
}

#[test]
fn an_error_of_a_oneof_is_never_omitted() {
    let mut catalog = catalog();
    register(
        &mut catalog,
        &oneof(
            "Pet",
            vec![
                variant("Cat", "bool", vec![flag("bool"), pair("tag", "1")]),
                variant("Dog", "Dog", vec![flag("message"), pair("tag", "2")]),
            ],
        ),
    );
    register(
        &mut catalog,
        &message(
            "Owner",
            &["omit_type_errors", "use_default_for_missing_fields", "ignore_unknown_fields"],
            vec![
                field("age", "i32", vec![flag("int32"), pair("tag", "3")]),
                field("pet", "Pet", vec![pair("oneof", "Pet"), pair("tags", "1, 2")]),
            ],
        ),
    );
    assert!(catalog.check());
    let name = "Owner".to_string();
    assert_eq!(
        decode(&catalog, &name, &parse(r#"{"age":"x","cat":5}"#)),
        Err(DecodeError::TypeMismatch)
    );
    assert_eq!(
        decode(&catalog, &name, &parse(r#"{"dog":[]}"#)),
        Err(DecodeError::TypeMismatch)
    );
    assert_eq!(
        decode(&catalog, &name, &parse(r#"{"age":"x","cat":true}"#)).unwrap(),
        Message {
            fields: vec![
                FieldValue::Single(number(0)),
                FieldValue::Oneof(Some(OneofValue { variant: 0, value: Value::Bool(true) })),
            ],
        }
    );
}

#[test]
fn members_in_any_order_are_written_with_the_same_values() {
    let as_value = |text: &str| serde_json::from_str::<serde_json::Value>(text).unwrap();
    for (name, json) in [
        ("Primitive", r#"{"is_active":false,"hashed_password":"/+I/","name":"n","timestamp":-5,"id":-1}"#),
        ("Optional", r#"{"name":"x","is_active":null}"#),
        ("Repeated", r#"{"names":["a",""],"hashed_password":["YQ=="],"timestamp":2,"id":1}"#),
        ("Enum", r#"{"sub_notification":"NOTIFICATION_SMS","language":"LANGUAGE_KOREAN"}"#),
        ("Message", r#"{"post_code":{"code":"1"},"address":{"state":"s","street":null}}"#),
        ("Oneof", r#"{"dog":{"name":"d"},"age":3}"#),
    ] {
        let written = write(name, &read(name, json).unwrap()).unwrap();
        assert_eq!(as_value(&drop_null(&written)), as_value(&drop_null(json)), "{}", name);
    }
}
