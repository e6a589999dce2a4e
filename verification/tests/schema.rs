use prost_serde_derive::attr::{
    DefaultValue, DeriveMeta, FieldModifier, ProstAttr, ProstBytesType, ProstType, ProtobufType, Tag,
    PATH_LIMIT,
};
use prost_serde_derive::catalog::{EnumRegistry, EnumVariant};
use prost_serde_derive::context::{Context, ErrorKind, SyntaxError};
use prost_serde_derive::deserialize::enumeration::expand_oneof_field_names_method;
use prost_serde_derive::deserialize::field::{
    FieldVisitorTokenGenerator, FieldVisitorTokenStream, Narrowing, ValueGetter,
};
use prost_serde_derive::deserialize::structure::{
    FieldVisitor, SingleFieldVariant, StructVisitor,
};
use prost_serde_derive::deserialize::{expand_deserialize, Deserializer};
use prost_serde_derive::number::{parse_i32, parse_tags};
use prost_serde_derive::serialize::field::FieldSerializer;
use prost_serde_derive::serialize::{expand_serialize, Serializer};
use prost_serde_derive::syntax::{
    AttrBody, Attribute, Data, DataEnum, DataStruct, DataUnion, DeriveInput, Expr, Field, Fields,
    Ident, Meta, MetaNameValue, Path, Span, Variant,
};
use prost_serde_derive::util::{into_syn_error, parse_meta_args_from_attrs, set_option_or_err};

fn at(line: usize) -> Span {
    Span { line, column: 1 }
}

fn ident(name: &str) -> Ident {
    Ident { span: at(1), name: name.to_string() }
}

fn bare(name: &str, line: usize) -> Path {
    Path { span: at(line), leading_colon: false, segments: vec![name.to_string()], arguments: false }
}

fn global(first: &str, second: &str, line: usize) -> Path {
    Path {
        span: at(line),
        leading_colon: true,
        segments: vec![first.to_string(), second.to_string()],
        arguments: false,
    }
}

fn flag(name: &str, line: usize) -> Meta {
    Meta::Path(bare(name, line))
}

fn pair(name: &str, value: &str, line: usize) -> Meta {
    Meta::NameValue(MetaNameValue {
        path: bare(name, line),
        value: Expr { span: at(line + 100), literal: Some(value.to_string()) },
    })
}

fn list(name: &str, metas: Vec<Meta>) -> Attribute {
    Attribute { path: bare(name, 50), body: AttrBody::List(Some(metas)) }
}

fn field(name: &str, metas: Vec<Meta>) -> Field {
    Field {
        span: at(9),
        ident: Some(ident(name)),
        ty: "T".to_string(),
        attrs: vec![list("prost", metas)],
    }
}

fn kind(second: &str) -> Attribute {
    list("derive", vec![flag("Debug", 2), Meta::Path(global("prost", second, 3))])
}

fn message(attrs: Vec<Attribute>, fields: Vec<Field>) -> DeriveInput {
    DeriveInput {
        attrs,
        ident: ident("M"),
        data: Data::Struct(DataStruct { struct_token: at(7), fields: Fields::Named(fields) }),
    }
}

fn error(line: usize, kind: ErrorKind) -> SyntaxError {
    SyntaxError { span: at(line), kind }
}

#[test]
fn decimal_text_is_read_as_the_standard_library_reads_it() {
    for text in [
        "", "0", "7", "-7", "+7", "007", "-0", "+", "-", "--1", "+-1", "1 ", " 1", "1_000", "١",
        "2147483647", "2147483648", "-2147483648", "-2147483649", "00000000000000000000012",
        "99999999999999999999", "-99999999999999999999", "12a", "a12", "1.0", "0x10", "１２",
    ] {
        assert_eq!(parse_i32(text), text.parse::<i32>().ok(), "{}", text);
    }
    assert_eq!(parse_i32("39"), Some(39));
    assert_eq!(parse_i32("-2147483648"), Some(i32::MIN));
}

#[test]
fn tags_are_separated_by_comma_and_space() {
    for text in ["3, 4", "3", "", "3,4", "3, ", ", 3", "3, 4, -5", "3,  4", "1, 2, x", "+1, 2"] {
        let expected: Option<Vec<i32>> = text.split(", ").map(|p| p.parse::<i32>().ok()).collect();
        assert_eq!(parse_tags(text), expected, "{}", text);
    }
    assert_eq!(parse_tags("3, 4"), Some(vec![3, 4]));
    assert_eq!(parse_tags("3,4"), None);
}

#[test]
fn every_type_of_the_catalog_has_its_directive() {
    for (name, ty) in [
        ("string", ProtobufType::String),
        ("message", ProtobufType::Message),
        ("bool", ProtobufType::Bool),
        ("int32", ProtobufType::Int32),
        ("fixed32", ProtobufType::Fixed32),
        ("sfixed32", ProtobufType::Fixed32),
        ("uint32", ProtobufType::Uint32),
        ("int64", ProtobufType::Int64),
        ("fixed64", ProtobufType::Fixed64),
        ("sfixed64", ProtobufType::Fixed64),
        ("uint64", ProtobufType::Uint64),
        ("float", ProtobufType::Float),
        ("double", ProtobufType::Double),
    ] {
        assert_eq!(ProtobufType::try_from(&flag(name, 4)), Ok(ty));
    }
    assert_eq!(
        ProtobufType::try_from(&pair("enumeration", "enums::Language", 4)),
        Ok(ProtobufType::Enumeration("enums::Language".to_string()))
    );
    assert_eq!(
        ProtobufType::try_from(&pair("oneof", "oneof::Animal", 4)),
        Ok(ProtobufType::OneOf("oneof::Animal".to_string()))
    );
    assert_eq!(
        ProtobufType::try_from(&pair("bytes", "vec", 4)),
        Ok(ProtobufType::Bytes(ProstBytesType::Vec))
    );
    assert_eq!(
        ProtobufType::try_from(&pair("bytes", "bytes", 4)),
        Ok(ProtobufType::Bytes(ProstBytesType::Bytes))
    );
}

#[test]
fn what_is_no_type_says_why() {
    assert_eq!(
        ProtobufType::try_from(&flag("sint32", 4)),
        Err(error(4, ErrorKind::UnrecognizedType))
    );
    assert_eq!(
        ProtobufType::try_from(&pair("map", "x", 4)),
        Err(error(4, ErrorKind::UnrecognizedType))
    );
    assert_eq!(
        ProtobufType::try_from(&pair("bytes", "slice", 4)),
        Err(error(104, ErrorKind::ExpectedBytesOrVec))
    );
    assert_eq!(
        ProtobufType::try_from(&pair("enumeration", "not a path", 4)),
        Err(error(104, ErrorKind::InvalidPath))
    );
    assert_eq!(
        ProtobufType::try_from(&pair("oneof", "", 4)),
        Err(error(104, ErrorKind::InvalidPath))
    );
    assert_eq!(
        ProtobufType::try_from(&Meta::NameValue(MetaNameValue {
            path: bare("bytes", 4),
            value: Expr { span: at(5), literal: None },
        })),
        Err(error(5, ErrorKind::ExpectedStringLiteral))
    );
    assert_eq!(
        ProtobufType::try_from(&Meta::Path(global("prost", "string", 4))),
        Err(error(4, ErrorKind::InvalidDirective))
    );
    assert_eq!(
        ProtobufType::try_from(&Meta::List(bare("string", 4))),
        Err(error(4, ErrorKind::InvalidDirective))
    );
}

#[test]
fn a_path_is_no_longer_than_the_limit() {
    let longest = "a".repeat(PATH_LIMIT);
    assert_eq!(
        ProtobufType::try_from(&pair("enumeration", &longest, 4)),
        Ok(ProtobufType::Enumeration(longest.clone()))
    );
    let longer = "a".repeat(PATH_LIMIT + 1);
    assert_eq!(
        ProtobufType::try_from(&pair("enumeration", &longer, 4)),
        Err(error(104, ErrorKind::InvalidPath))
    );
    assert_eq!(
        ProtobufType::try_from(&pair("oneof", &longer, 4)),
        Err(error(104, ErrorKind::InvalidPath))
    );
    let nested = format!("{}u8{}", "A<".repeat(100_000), ">".repeat(100_000));
    assert_eq!(
        ProtobufType::try_from(&pair("oneof", &nested, 4)),
        Err(error(104, ErrorKind::InvalidPath))
    );
    assert_eq!(
        ProtobufType::referring(true, ProtobufType::Bool, at(1)),
        Ok(ProtobufType::Bool)
    );
    assert_eq!(
        ProtobufType::referring(false, ProtobufType::Bool, at(1)),
        Err(error(1, ErrorKind::InvalidPath))
    );
}

#[test]
fn cardinality_is_repeated_or_optional() {
    assert_eq!(FieldModifier::try_from(&flag("repeated", 1)), Ok(FieldModifier::Repeated));
    assert_eq!(FieldModifier::try_from(&flag("optional", 1)), Ok(FieldModifier::Optional));
    assert_eq!(
        FieldModifier::try_from(&flag("required", 1)),
        Err(error(1, ErrorKind::UnrecognizedModifier))
    );
    assert_eq!(
        FieldModifier::try_from(&pair("optional", "x", 1)),
        Err(error(1, ErrorKind::InvalidDirective))
    );
    assert_eq!(FieldModifier::default(), FieldModifier::Singular);
}

#[test]
fn tag_is_an_i32_and_tags_a_list_of_them() {
    assert_eq!(Tag::try_from(&pair("tag", "12", 1)), Ok(Tag::Tag(12)));
    assert_eq!(Tag::try_from(&pair("tags", "3, 4", 1)), Ok(Tag::OneofTag(vec![3, 4])));
    assert_eq!(Tag::try_from(&pair("tag", "x", 1)), Err(error(101, ErrorKind::InvalidTagValue)));
    assert_eq!(
        Tag::try_from(&pair("tags", "3,4", 1)),
        Err(error(101, ErrorKind::InvalidTagValues))
    );
    assert_eq!(Tag::try_from(&pair("label", "1", 1)), Err(error(1, ErrorKind::InvalidDirective)));
    assert_eq!(Tag::try_from(&flag("tag", 1)), Err(error(1, ErrorKind::InvalidDirective)));
    assert_eq!(
        Tag::try_from(&Meta::NameValue(MetaNameValue {
            path: bare("tag", 4),
            value: Expr { span: at(5), literal: None },
        })),
        Err(error(5, ErrorKind::ExpectedStringLiteral))
    );
}

#[test]
fn field_needs_its_type_and_its_tag_once() {
    let attr = |metas| ProstAttr::from_attributes(&vec![list("prost", metas)]);
    assert_eq!(
        attr(vec![flag("int32", 1), flag("optional", 2), pair("tag", "1", 3)]),
        Ok(ProstAttr {
            ty: ProtobufType::Int32,
            modifier: FieldModifier::Optional,
            tag: Tag::Tag(1),
        })
    );
    assert_eq!(
        attr(vec![pair("tag", "1", 3), flag("required", 2), flag("string", 1)]),
        Ok(ProstAttr {
            ty: ProtobufType::String,
            modifier: FieldModifier::Singular,
            tag: Tag::Tag(1),
        })
    );
    assert_eq!(attr(vec![pair("tag", "1", 3)]), Err(error(0, ErrorKind::MissingType).at_origin()));
    assert_eq!(attr(vec![flag("int32", 1)]), Err(error(0, ErrorKind::MissingTag).at_origin()));
    assert_eq!(
        attr(vec![flag("int32", 1), pair("tag", "x", 3)]),
        Err(error(0, ErrorKind::MissingTag).at_origin())
    );
    assert_eq!(
        attr(vec![flag("int32", 1), flag("string", 2), pair("tag", "1", 3)]),
        Err(error(2, ErrorKind::DuplicateAttribute))
    );
    assert_eq!(
        attr(vec![flag("optional", 1), flag("repeated", 2)]),
        Err(error(2, ErrorKind::DuplicateAttribute))
    );
    assert_eq!(
        attr(vec![pair("tag", "1", 1), pair("tags", "1, 2", 2)]),
        Err(error(2, ErrorKind::DuplicateAttribute))
    );
}

trait AtOrigin {
    fn at_origin(self) -> Self;
}

impl AtOrigin for SyntaxError {
    fn at_origin(self) -> SyntaxError {
        SyntaxError { span: Span::call_site(), kind: self.kind }
    }
}

#[test]
fn directives_are_taken_from_every_list_of_the_name() {
    let attrs = vec![
        list("prost", vec![flag("int32", 1)]),
        Attribute { path: bare("doc", 2), body: AttrBody::NameValue },
        list("serde", vec![flag("default", 3)]),
        list("prost", vec![pair("tag", "1", 4)]),
    ];
    let metas = parse_meta_args_from_attrs(&attrs, "prost", false).unwrap();
    assert_eq!(metas, vec![&flag("int32", 1), &pair("tag", "1", 4)]);
    let loose = vec![Attribute { path: bare("prost", 6), body: AttrBody::Path }];
    assert_eq!(parse_meta_args_from_attrs(&loose, "prost", false), Ok(vec![]));
    assert_eq!(
        parse_meta_args_from_attrs(&loose, "prost", true),
        Err(error(6, ErrorKind::NotStructuredList))
    );
    let broken = vec![Attribute { path: bare("prost", 6), body: AttrBody::List(None) }];
    assert_eq!(
        parse_meta_args_from_attrs(&broken, "prost", false),
        Err(error(6, ErrorKind::MalformedList))
    );
}

#[test]
fn an_option_is_set_once() {
    let mut option = None;
    assert_eq!(set_option_or_err(&mut option, at(1), 5), Ok(()));
    assert_eq!(option, Some(5));
    assert_eq!(
        set_option_or_err(&mut option, at(2), 6),
        Err(into_syn_error(at(2), ErrorKind::DuplicateAttribute))
    );
    assert_eq!(option, Some(5));
}

#[test]
fn policy_is_strict_unless_switched() {
    assert_eq!(
        DeriveMeta::from_attributes(&vec![kind("Message")]),
        Ok(DeriveMeta {
            prost_type: ProstType::Message,
            omit_type_errors: false,
            use_default_for_missing_fields: false,
            ignore_unknown_fields: false,
        })
    );
    assert_eq!(
        DeriveMeta::from_attributes(&vec![
            kind("Oneof"),
            list("prost_serde_derive", vec![flag("ignore_unknown_fields", 1)]),
            list("prost_serde_derive", vec![flag("omit_type_errors", 1)]),
        ]),
        Ok(DeriveMeta {
            prost_type: ProstType::Oneof,
            omit_type_errors: true,
            use_default_for_missing_fields: false,
            ignore_unknown_fields: true,
        })
    );
    assert_eq!(
        DeriveMeta::from_attributes(&vec![
            kind("Enumeration"),
            list("prost_serde_derive", vec![flag("use_default_for_missing_fields", 1)]),
        ]),
        Ok(DeriveMeta {
            prost_type: ProstType::Enum,
            omit_type_errors: false,
            use_default_for_missing_fields: true,
            ignore_unknown_fields: false,
        })
    );
}

#[test]
fn a_type_has_exactly_one_kind() {
    assert_eq!(
        DeriveMeta::from_attributes(&vec![list("derive", vec![flag("Debug", 2)])]),
        Err(SyntaxError { span: Span::call_site(), kind: ErrorKind::MissingProstType })
    );
    assert_eq!(
        DeriveMeta::from_attributes(&vec![kind("Message"), kind("Oneof")]),
        Err(error(3, ErrorKind::DuplicateAttribute))
    );
    assert_eq!(
        DeriveMeta::from_attributes(&vec![list("derive", vec![flag("Message", 2)])]),
        Err(SyntaxError { span: Span::call_site(), kind: ErrorKind::MissingProstType })
    );
    assert_eq!(
        DeriveMeta::from_attributes(&vec![
            kind("Message"),
            list("prost_serde_derive", vec![flag("lenient", 8)]),
        ]),
        Err(error(8, ErrorKind::UnrecognizedOption))
    );
    assert_eq!(
        DeriveMeta::from_attributes(&vec![
            kind("Message"),
            list("prost_serde_derive", vec![pair("omit_type_errors", "true", 8)]),
        ]),
        Err(error(8, ErrorKind::UnrecognizedOption))
    );
}

#[test]
fn errors_are_collected_in_order() {
    let mut context = Context::new();
    context.push_error_spanned_by(at(1), ErrorKind::MissingTag);
    context.push_syn_error(error(2, ErrorKind::MissingType));
    assert_eq!(
        context.check(),
        Err(vec![error(1, ErrorKind::MissingTag), error(2, ErrorKind::MissingType)])
    );
    assert_eq!(Context::new().check(), Ok(()));
    assert_eq!(ErrorKind::MissingTag.message(), "missing tag");
    assert_eq!(
        ErrorKind::OneofWithModifier.message(),
        "oneof should not have modifier(optional, repeated)"
    );
}

#[test]
fn the_strategy_of_a_field_follows_type_cardinality_and_policy() {
    let strict = DeriveMeta {
        prost_type: ProstType::Message,
        omit_type_errors: false,
        use_default_for_missing_fields: false,
        ignore_unknown_fields: false,
    };
    let lenient = DeriveMeta {
        prost_type: ProstType::Message,
        omit_type_errors: true,
        use_default_for_missing_fields: true,
        ignore_unknown_fields: true,
    };
    let attr = |ty, modifier| ProstAttr { ty, modifier, tag: Tag::Tag(1) };
    let expand = |meta: &DeriveMeta, attr: &ProstAttr| {
        let mut context = Context::new();
        let tokens =
            FieldVisitorTokenGenerator::new(meta).expand(&mut context, attr, &"T".to_string());
        (tokens, context.check())
    };
    let getter = |ty, modifier, fallback| ValueGetter {
        modifier,
        ty,
        message: "T".to_string(),
        fallback,
    };
    assert_eq!(
        expand(&strict, &attr(ProtobufType::Int32, FieldModifier::Singular)),
        (
            Ok(FieldVisitorTokenStream {
                value_getter_expr: getter(ProtobufType::Int32, FieldModifier::Singular, None),
                narrowing_expr: Narrowing::Required,
            }),
            Ok(())
        )
    );
    assert_eq!(
        expand(&lenient, &attr(ProtobufType::Int32, FieldModifier::Singular)),
        (
            Ok(FieldVisitorTokenStream {
                value_getter_expr: getter(
                    ProtobufType::Int32,
                    FieldModifier::Singular,
                    Some(DefaultValue::Type)
                ),
                narrowing_expr: Narrowing::Default(DefaultValue::Type),
            }),
            Ok(())
        )
    );
    let language = || ProtobufType::Enumeration("Language".to_string());
    assert_eq!(
        expand(&lenient, &attr(language(), FieldModifier::Singular)),
        (
            Ok(FieldVisitorTokenStream {
                value_getter_expr: getter(
                    language(),
                    FieldModifier::Singular,
                    Some(DefaultValue::Enumeration("Language".to_string()))
                ),
                narrowing_expr: Narrowing::Default(DefaultValue::Enumeration(
                    "Language".to_string()
                )),
            }),
            Ok(())
        )
    );
    assert_eq!(
        expand(&lenient, &attr(language(), FieldModifier::Optional)),
        (
            Ok(FieldVisitorTokenStream {
                value_getter_expr: getter(
                    language(),
                    FieldModifier::Optional,
                    Some(DefaultValue::Type)
                ),
                narrowing_expr: Narrowing::Absent,
            }),
            Ok(())
        )
    );
    assert_eq!(
        expand(&strict, &attr(ProtobufType::String, FieldModifier::Repeated)),
        (
            Ok(FieldVisitorTokenStream {
                value_getter_expr: getter(ProtobufType::String, FieldModifier::Repeated, None),
                narrowing_expr: Narrowing::Empty,
            }),
            Ok(())
        )
    );
    let animal = || ProtobufType::OneOf("Animal".to_string());
    assert_eq!(
        expand(&strict, &attr(animal(), FieldModifier::Singular)),
        (
            Ok(FieldVisitorTokenStream {
                value_getter_expr: getter(animal(), FieldModifier::Singular, None),
                narrowing_expr: Narrowing::Unset,
            }),
            Ok(())
        )
    );
    assert_eq!(
        expand(&lenient, &attr(animal(), FieldModifier::Singular)),
        (
            Ok(FieldVisitorTokenStream {
                value_getter_expr: getter(animal(), FieldModifier::Singular, None),
                narrowing_expr: Narrowing::Unset,
            }),
            Ok(())
        )
    );
    for modifier in [FieldModifier::Optional, FieldModifier::Repeated] {
        assert_eq!(
            expand(&strict, &attr(animal(), modifier)),
            (
                Err(()),
                Err(vec![SyntaxError {
                    span: Span::call_site(),
                    kind: ErrorKind::OneofWithModifier
                }])
            )
        );
    }
}

#[test]
fn a_message_expands_to_its_two_tables() {
    let input = message(
        vec![kind("Message"), list("prost_serde_derive", vec![flag("ignore_unknown_fields", 1)])],
        vec![
            field("id", vec![flag("int32", 1), pair("tag", "1", 2)]),
            field("animal", vec![pair("oneof", "Animal", 1), pair("tags", "2, 3", 2)]),
        ],
    );
    let expanded = expand_deserialize(&input).unwrap();
    assert_eq!(expanded.oneof_field_names, Vec::<String>::new());
    assert_eq!(
        expanded.deserializer,
        Deserializer::Struct(StructVisitor {
            name: "M".to_string(),
            ignore_unknown_fields: true,
            fields: vec![
                FieldVisitor {
                    name: "id".to_string(),
                    variant: SingleFieldVariant::new("id".to_string(), None),
                    tokens: FieldVisitorTokenStream {
                        value_getter_expr: ValueGetter {
                            modifier: FieldModifier::Singular,
                            ty: ProtobufType::Int32,
                            message: "T".to_string(),
                            fallback: None,
                        },
                        narrowing_expr: Narrowing::Required,
                    },
                },
                FieldVisitor {
                    name: "animal".to_string(),
                    variant: SingleFieldVariant::new(
                        "animal".to_string(),
                        Some("Animal".to_string())
                    ),
                    tokens: FieldVisitorTokenStream {
                        value_getter_expr: ValueGetter {
                            modifier: FieldModifier::Singular,
                            ty: ProtobufType::OneOf("Animal".to_string()),
                            message: "T".to_string(),
                            fallback: None,
                        },
                        narrowing_expr: Narrowing::Unset,
                    },
                },
            ],
        })
    );
    match expand_serialize(&input).unwrap().serializer {
        Serializer::Struct(serializer) => {
            assert_eq!(serializer.name, "M");
            assert_eq!(
                serializer.fields,
                vec![
                    FieldSerializer::Emit {
                        name: "id".to_string(),
                        ty: ProtobufType::Int32,
                        modifier: FieldModifier::Singular,
                        message: "T".to_string(),
                    },
                    FieldSerializer::Flatten { oneof: "Animal".to_string() },
                ]
            );
        }
        other => panic!("{:?}", other),
    }
}

#[test]
fn a_oneof_expands_to_its_registry() {
    let input = DeriveInput {
        attrs: vec![kind("Oneof")],
        ident: ident("Animal"),
        data: Data::Enum(DataEnum {
            enum_token: at(7),
            variants: vec![
                Variant {
                    ident: ident("BigCat"),
                    ty: "Cat".to_string(),
                    attrs: vec![list("prost", vec![flag("message", 1), pair("tag", "1", 2)])],
                },
                Variant {
                    ident: ident("Name"),
                    ty: "String".to_string(),
                    attrs: vec![list("prost", vec![flag("string", 1), pair("tag", "2", 2)])],
                },
            ],
        }),
    };
    let expanded = expand_deserialize(&input).unwrap();
    assert_eq!(expanded.oneof_field_names, vec!["big_cat".to_string(), "name".to_string()]);
    match expanded.deserializer {
        Deserializer::Oneof(registry) => {
            assert_eq!(registry.name, "Animal");
            assert_eq!(registry.variants.len(), 2);
            assert_eq!(registry.variants[0].ident, "BigCat");
            assert_eq!(registry.variants[0].name, "big_cat");
            assert_eq!(registry.variants[0].ty, ProtobufType::Message);
            assert_eq!(registry.variants[0].message, "Cat");
            assert_eq!(registry.variants[1].name, "name");
            assert_eq!(registry.variants[1].ty, ProtobufType::String);
        }
        other => panic!("{:?}", other),
    }
    let written = expand_serialize(&input).unwrap();
    assert_eq!(written.oneof_field_name, vec!["big_cat".to_string(), "name".to_string()]);
    let meta = DeriveMeta::from_attributes(&input.attrs).unwrap();
    assert_eq!(
        expand_oneof_field_names_method(&meta, &input.ident, &input.data),
        vec!["big_cat".to_string(), "name".to_string()]
    );
}

#[test]
fn an_enumeration_expands_to_its_name_codec() {
    let input = DeriveInput {
        attrs: vec![kind("Enumeration")],
        ident: ident("Language"),
        data: Data::Enum(DataEnum { enum_token: at(7), variants: vec![] }),
    };
    assert_eq!(expand_deserialize(&input).unwrap().deserializer, Deserializer::Enumeration);
    assert_eq!(expand_serialize(&input).unwrap().serializer, Serializer::Enumeration);
}

#[test]
fn a_declaration_in_error_gives_no_table() {
    let errors = |input: &DeriveInput| {
        (expand_deserialize(input).unwrap_err(), expand_serialize(input).unwrap_err())
    };
    let both = |e: SyntaxError| (vec![e], vec![e]);
    assert_eq!(
        errors(&message(vec![], vec![])),
        both(SyntaxError { span: Span::call_site(), kind: ErrorKind::MissingProstType })
    );
    assert_eq!(
        errors(&message(vec![kind("Oneof")], vec![])),
        both(error(7, ErrorKind::StructNotMessage))
    );
    assert_eq!(
        errors(&message(vec![kind("Message")], vec![field("id", vec![flag("int32", 1)])])),
        both(SyntaxError { span: Span::call_site(), kind: ErrorKind::MissingTag })
    );
    assert_eq!(
        errors(&DeriveInput {
            attrs: vec![kind("Message")],
            ident: ident("E"),
            data: Data::Enum(DataEnum { enum_token: at(8), variants: vec![] }),
        }),
        both(error(8, ErrorKind::EnumNotEnumerationOrOneof))
    );
    let union = DeriveInput {
        attrs: vec![kind("Message")],
        ident: ident("U"),
        data: Data::Union(DataUnion { union_token: at(6) }),
    };
    assert_eq!(
        errors(&union),
        (vec![error(6, ErrorKind::UnionDeserialize)], vec![error(6, ErrorKind::UnionSerialize)])
    );
    let unit = DeriveInput {
        attrs: vec![kind("Message")],
        ident: ident("U"),
        data: Data::Struct(DataStruct { struct_token: at(7), fields: Fields::Unit(at(5)) }),
    };
    assert_eq!(
        errors(&unit),
        (
            vec![error(5, ErrorKind::UnitStructDeserialize)],
            vec![error(5, ErrorKind::UnitStructSerialize)]
        )
    );
    let tuple = DeriveInput {
        attrs: vec![kind("Message")],
        ident: ident("U"),
        data: Data::Struct(DataStruct { struct_token: at(7), fields: Fields::Unnamed(at(5)) }),
    };
    assert_eq!(
        errors(&tuple),
        (
            vec![error(5, ErrorKind::TupleStructDeserialize)],
            vec![error(5, ErrorKind::TupleStructSerialize)]
        )
    );
    let repeated_oneof = message(
        vec![kind("Message")],
        vec![field(
            "animal",
            vec![pair("oneof", "Animal", 1), flag("repeated", 2), pair("tags", "1, 2", 3)],
        )],
    );
    assert_eq!(
        errors(&repeated_oneof),
        both(SyntaxError { span: Span::call_site(), kind: ErrorKind::OneofWithModifier })
    );
    let optional_oneof = message(
        vec![kind("Message")],
        vec![field(
            "animal",
            vec![pair("oneof", "Animal", 1), flag("optional", 2), pair("tags", "1, 2", 3)],
        )],
    );
    assert_eq!(
        errors(&optional_oneof),
        both(SyntaxError { span: Span::call_site(), kind: ErrorKind::OneofWithModifier })
    );
    let nameless = message(
        vec![kind("Message")],
        vec![Field {
            span: at(9),
            ident: None,
            ty: "T".to_string(),
            attrs: vec![list("prost", vec![flag("int32", 1), pair("tag", "1", 2)])],
        }],
    );
    assert_eq!(errors(&nameless), both(error(9, ErrorKind::FieldWithoutName)));
}

#[test]
fn registry_maps_names_and_discriminants_both_ways() {
    let registry = EnumRegistry {
        name: "Language".to_string(),
        variants: vec![
            EnumVariant { name: "LANGUAGE_UNSPECIFIED".to_string(), value: 0 },
            EnumVariant { name: "LANGUAGE_ENGLISH".to_string(), value: 1 },
        ],
    };
    assert_eq!(registry.name_for(1), Some(&"LANGUAGE_ENGLISH".to_string()));
    assert_eq!(registry.name_for(2), None);
    assert_eq!(registry.value_for(&"LANGUAGE_ENGLISH".to_string()), Some(1));
    assert_eq!(registry.value_for(&"language_english".to_string()), None);
    assert_eq!(registry.default_value(), 0);
}

#[test]
fn each_cardinality_has_its_getter() {
    let meta = DeriveMeta {
        prost_type: ProstType::Message,
        omit_type_errors: true,
        use_default_for_missing_fields: false,
        ignore_unknown_fields: false,
    };
    let generator = FieldVisitorTokenGenerator::new(&meta);
    let held = "T".to_string();
    let attr = |ty, modifier| ProstAttr { ty, modifier, tag: Tag::Tag(1) };
    let getter = |ty, modifier, fallback| ValueGetter {
        modifier,
        ty,
        message: "T".to_string(),
        fallback,
    };
    let mut context = Context::new();
    assert_eq!(
        generator.get_none_value_getter_expr(
            &attr(ProtobufType::Bool, FieldModifier::Singular),
            &held
        ),
        Ok(getter(ProtobufType::Bool, FieldModifier::Singular, Some(DefaultValue::Type)))
    );
    assert_eq!(
        generator.get_repeated_value_getter_expr(
            &mut context,
            &attr(ProtobufType::Bool, FieldModifier::Repeated),
            &held
        ),
        Ok(getter(ProtobufType::Bool, FieldModifier::Repeated, Some(DefaultValue::Type)))
    );
    assert_eq!(
        generator.get_optional_value_getter_expr(
            &mut context,
            &attr(ProtobufType::Bool, FieldModifier::Optional),
            &held
        ),
        Ok(getter(ProtobufType::Bool, FieldModifier::Optional, Some(DefaultValue::Type)))
    );
    assert_eq!(
        generator.get_optional_value_getter_expr(
            &mut context,
            &attr(ProtobufType::OneOf("A".to_string()), FieldModifier::Optional),
            &held
        ),
        Err(())
    );
    assert_eq!(
        context.check(),
        Err(vec![SyntaxError { span: Span::call_site(), kind: ErrorKind::OneofWithModifier }])
    );
}
