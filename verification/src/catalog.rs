//! The tables that decoding and encoding look types up in: the variants of
//! every enumeration, the variants of every oneof, and the strategy tables of
//! every message.

use vstd::prelude::*;
use convert_case::{Case, Casing};
use crate::attr::{FieldModifier, ProtobufType};
use crate::deserialize::field::Narrowing;
use crate::deserialize::structure::{FieldVisitor, StructVisitor};
use crate::serialize::field::FieldSerializer;
use crate::serialize::structure::StructSerializer;
use crate::text::{distinct, lemma_position, position, position_from};

verus! {

/// What is looked up by its name.
pub trait Named {
    /// The name.
    spec fn spec_name(&self) -> Seq<char>;

    /// The name.
    fn name(&self) -> (r: &String)
        ensures
            r@ == self.spec_name(),
    ;
}

/// The names of a list of named things.
pub open spec fn names_of<T: Named>(items: Seq<T>) -> Seq<Seq<char>> {
    Seq::new(items.len(), |i: int| items[i].spec_name())
}

/// The first of `items` whose name is `key`.
pub open spec fn named<T: Named>(items: Seq<T>, key: Seq<char>) -> Option<T> {
    match position(names_of(items), key) {
        Some(i) => Some(items[i]),
        None => None,
    }
}

/// Finds the first of `items` whose name is `key`.
pub fn find_named<T: Named>(items: &Vec<T>, key: &String) -> (r: Option<usize>)
    ensures
        match r {
            Some(i) => position(names_of(items@), key@) == Some(i as int) && i < items@.len(),
            None => position(names_of(items@), key@) is None,
        },
{
    let mut i: usize = 0;
    while i < items.len()
        invariant
            i <= items.len(),
            position(names_of(items@), key@) == position_from(names_of(items@), key@, i as int),
        decreases items.len() - i,
    {
        if *items[i].name() == *key {
            return Some(i);
        }
        i += 1;
    }
    None
}

/// A variant of an enumeration: its name on the wire and its discriminant.
#[derive(Debug, PartialEq, Eq)]
pub struct EnumVariant {
    pub name: String,
    pub value: i32,
}

impl Named for EnumVariant {
    open spec fn spec_name(&self) -> Seq<char> {
        self.name@
    }

    fn name(&self) -> (r: &String) {
        &self.name
    }
}

/// The variants of an enumeration. The first is its default.
#[derive(Debug, PartialEq, Eq)]
pub struct EnumRegistry {
    /// The path by which fields refer to the enumeration.
    pub name: String,
    pub variants: Vec<EnumVariant>,
}

impl Named for EnumRegistry {
    open spec fn spec_name(&self) -> Seq<char> {
        self.name@
    }

    fn name(&self) -> (r: &String) {
        &self.name
    }
}

/// The position of the first of `variants` with the discriminant `value`,
/// looking from position `from` on.
pub open spec fn valued_from(variants: Seq<EnumVariant>, value: i32, from: int) -> Option<int>
    decreases variants.len() - from,
{
    if from < 0 || from >= variants.len() {
        None
    } else if variants[from].value == value {
        Some(from)
    } else {
        valued_from(variants, value, from + 1)
    }
}

/// `valued_from` finds a variant exactly where one is, and then the first.
pub proof fn lemma_valued(variants: Seq<EnumVariant>, value: i32, from: int)
    requires
        0 <= from,
    ensures
        match valued_from(variants, value, from) {
            Some(i) => from <= i < variants.len() && variants[i].value == value && forall|j: int|
                from <= j < i ==> variants[j].value != value,
            None => forall|j: int| from <= j < variants.len() ==> variants[j].value != value,
        },
    decreases variants.len() - from,
{
    if from < variants.len() && variants[from].value != value {
        lemma_valued(variants, value, from + 1);
    }
}

impl EnumRegistry {
    /// The discriminant of the variant named `name`.
    pub open spec fn spec_value_for(&self, name: Seq<char>) -> Option<i32> {
        match named(self.variants@, name) {
            Some(variant) => Some(variant.value),
            None => None,
        }
    }

    /// The name of the variant with the discriminant `value`.
    pub open spec fn spec_name_for(&self, value: i32) -> Option<Seq<char>> {
        match valued_from(self.variants@, value, 0) {
            Some(i) => Some(self.variants@[i].name@),
            None => None,
        }
    }

    /// The discriminant of the default variant, which is the first; zero
    /// where there is no variant.
    pub open spec fn spec_default_value(&self) -> i32 {
        if self.variants@.len() > 0 {
            self.variants@[0].value
        } else {
            0
        }
    }

    /// The registry has a variant, and no two of its variants share a name
    /// or a discriminant.
    pub open spec fn wf(&self) -> bool {
        &&& self.variants@.len() > 0
        &&& distinct(names_of(self.variants@))
        &&& forall|i: int, j: int|
            0 <= i < j < self.variants@.len() ==> self.variants@[i].value
                != self.variants@[j].value
    }

    /// The discriminant of the variant named `name`.
    pub fn value_for(&self, name: &String) -> (r: Option<i32>)
        ensures
            r == self.spec_value_for(name@),
    {
        match find_named(&self.variants, name) {
            Some(i) => Some(self.variants[i].value),
            None => None,
        }
    }

    /// The name of the variant with the discriminant `value`.
    pub fn name_for(&self, value: i32) -> (r: Option<&String>)
        ensures
            match self.spec_name_for(value) {
                Some(name) => r is Some && r->0@ == name,
                None => r is None,
            },
    {
        let mut i: usize = 0;
        while i < self.variants.len()
            invariant
                i <= self.variants.len(),
                valued_from(self.variants@, value, 0) == valued_from(
                    self.variants@,
                    value,
                    i as int,
                ),
            decreases self.variants.len() - i,
        {
            if self.variants[i].value == value {
                return Some(&self.variants[i].name);
            }
            i += 1;
        }
        None
    }

    /// The discriminant of the default variant.
    pub fn default_value(&self) -> (r: i32)
        ensures
            r == self.spec_default_value(),
    {
        if self.variants.len() > 0 {
            self.variants[0].value
        } else {
            0
        }
    }
}

/// The name of `ident` in snake case.
pub uninterp spec fn snake_case_of(ident: Seq<char>) -> Seq<char>;

/// Calls `convert_case`'s `to_case` with `Case::Snake`, which cuts `ident`
/// into words and joins them in lower case with underscores. The name it
/// gives depends on `ident` alone; this crate does not say where it cuts.
#[verifier::external_body]
pub(crate) fn to_snake_case(ident: &String) -> (r: String)
    ensures
        r@ == snake_case_of(ident@),
{
    ident.to_case(Case::Snake)
}

/// A variant of a oneof.
#[derive(Debug, PartialEq, Eq)]
pub struct OneofVariant {
    /// The identifier that the variant was declared with.
    pub ident: String,
    /// The key of the variant on the wire.
    pub name: String,
    /// The type of the payload.
    pub ty: ProtobufType,
    /// The name of the payload's type, where it is a message.
    pub message: String,
}

impl Named for OneofVariant {
    open spec fn spec_name(&self) -> Seq<char> {
        self.name@
    }

    fn name(&self) -> (r: &String) {
        &self.name
    }
}

/// The variants of a oneof, in the order of their declaration.
#[derive(Debug, PartialEq, Eq)]
pub struct OneofRegistry {
    /// The path by which fields refer to the oneof.
    pub name: String,
    pub variants: Vec<OneofVariant>,
}

impl Named for OneofRegistry {
    open spec fn spec_name(&self) -> Seq<char> {
        self.name@
    }

    fn name(&self) -> (r: &String) {
        &self.name
    }
}

/// The types that decoding and encoding can refer to.
pub struct Catalog {
    pub enumerations: Vec<EnumRegistry>,
    pub oneofs: Vec<OneofRegistry>,
    pub visitors: Vec<StructVisitor>,
    pub serializers: Vec<StructSerializer>,
}

impl Catalog {
    /// A catalog without types.
    pub fn new() -> (r: Catalog)
        ensures
            r.enumerations@.len() == 0,
            r.oneofs@.len() == 0,
            r.visitors@.len() == 0,
            r.serializers@.len() == 0,
    {
        Catalog {
            enumerations: Vec::new(),
            oneofs: Vec::new(),
            visitors: Vec::new(),
            serializers: Vec::new(),
        }
    }

    /// Adds an enumeration.
    pub fn add_enumeration(&mut self, registry: EnumRegistry)
        ensures
            final(self).enumerations@ == old(self).enumerations@.push(registry),
            final(self).oneofs == old(self).oneofs,
            final(self).visitors == old(self).visitors,
            final(self).serializers == old(self).serializers,
    {
        self.enumerations.push(registry);
    }

    /// Adds a oneof.
    pub fn add_oneof(&mut self, registry: OneofRegistry)
        ensures
            final(self).oneofs@ == old(self).oneofs@.push(registry),
            final(self).enumerations == old(self).enumerations,
            final(self).visitors == old(self).visitors,
            final(self).serializers == old(self).serializers,
    {
        self.oneofs.push(registry);
    }

    /// Adds a message: its two tables, at the same place.
    pub fn add_message(&mut self, visitor: StructVisitor, serializer: StructSerializer)
        ensures
            final(self).visitors@ == old(self).visitors@.push(visitor),
            final(self).serializers@ == old(self).serializers@.push(serializer),
            final(self).enumerations == old(self).enumerations,
            final(self).oneofs == old(self).oneofs,
    {
        self.visitors.push(visitor);
        self.serializers.push(serializer);
    }

    /// The enumeration at `path`.
    pub open spec fn spec_enumeration(&self, path: Seq<char>) -> Option<EnumRegistry> {
        named(self.enumerations@, path)
    }

    /// The oneof at `path`.
    pub open spec fn spec_oneof(&self, path: Seq<char>) -> Option<OneofRegistry> {
        named(self.oneofs@, path)
    }

    /// The decoding table of the message named `name`.
    pub open spec fn spec_visitor(&self, name: Seq<char>) -> Option<StructVisitor> {
        named(self.visitors@, name)
    }

    /// The encoding table of the message named `name`.
    pub open spec fn spec_serializer(&self, name: Seq<char>) -> Option<StructSerializer> {
        named(self.serializers@, name)
    }

    /// The enumeration at `path`.
    pub fn enumeration(&self, path: &String) -> (r: Option<&EnumRegistry>)
        ensures
            match self.spec_enumeration(path@) {
                Some(found) => r is Some && *r->0 == found,
                None => r is None,
            },
    {
        match find_named(&self.enumerations, path) {
            Some(i) => Some(&self.enumerations[i]),
            None => None,
        }
    }

    /// The oneof at `path`.
    pub fn oneof(&self, path: &String) -> (r: Option<&OneofRegistry>)
        ensures
            match self.spec_oneof(path@) {
                Some(found) => r is Some && *r->0 == found,
                None => r is None,
            },
    {
        match find_named(&self.oneofs, path) {
            Some(i) => Some(&self.oneofs[i]),
            None => None,
        }
    }

    /// The decoding table of the message named `name`.
    pub fn visitor(&self, name: &String) -> (r: Option<&StructVisitor>)
        ensures
            match self.spec_visitor(name@) {
                Some(found) => r is Some && *r->0 == found,
                None => r is None,
            },
    {
        match find_named(&self.visitors, name) {
            Some(i) => Some(&self.visitors[i]),
            None => None,
        }
    }

    /// The encoding table of the message named `name`.
    pub fn serializer(&self, name: &String) -> (r: Option<&StructSerializer>)
        ensures
            match self.spec_serializer(name@) {
                Some(found) => r is Some && *r->0 == found,
                None => r is None,
            },
    {
        match find_named(&self.serializers, name) {
            Some(i) => Some(&self.serializers[i]),
            None => None,
        }
    }

    /// The default discriminant of the enumeration at `path`; zero where the
    /// catalog holds none.
    pub open spec fn spec_enumeration_default(&self, path: Seq<char>) -> i32 {
        match self.spec_enumeration(path) {
            Some(registry) => registry.spec_default_value(),
            None => 0,
        }
    }

    /// The default discriminant of the enumeration at `path`.
    pub fn enumeration_default(&self, path: &String) -> (r: i32)
        ensures
            r == self.spec_enumeration_default(path@),
    {
        match self.enumeration(path) {
            Some(registry) => registry.default_value(),
            None => 0,
        }
    }
}

/// Whether the two entries are those of one field: the one reads what the
/// other writes. A oneof is read by the names of its variants and written
/// flattened, and is unset where it is not given; any other field is read
/// and written under one name, with one type and one cardinality, and where
/// it is not given it becomes what its cardinality allows.
pub open spec fn paired(visitor: FieldVisitor, serializer: FieldSerializer) -> bool {
    match serializer {
        FieldSerializer::Flatten { oneof } => {
            &&& visitor.variant.ty matches Some(path) && path@ == oneof@
            &&& visitor.tokens.value_getter_expr.ty matches ProtobufType::OneOf(path) && path@
                == oneof@
            &&& visitor.tokens.narrowing_expr is Unset
        },
        FieldSerializer::Emit { name, ty, modifier, message } => {
            &&& visitor.variant.ty is None
            &&& visitor.variant.ident@ == name@
            &&& visitor.tokens.value_getter_expr.ty.spec_same(ty)
            &&& !(ty is OneOf)
            &&& visitor.tokens.value_getter_expr.modifier == modifier
            &&& visitor.tokens.value_getter_expr.message@ == message@
            &&& match modifier {
                FieldModifier::Singular => visitor.tokens.narrowing_expr is Required
                    || visitor.tokens.narrowing_expr is Default,
                FieldModifier::Repeated => visitor.tokens.narrowing_expr is Empty,
                FieldModifier::Optional => visitor.tokens.narrowing_expr is Absent,
            }
        },
    }
}

/// Whether the two tables are those of one message: they have the same
/// fields, in the same order.
pub open spec fn coherent(visitor: StructVisitor, serializer: StructSerializer) -> bool {
    &&& visitor.name@ == serializer.name@
    &&& visitor.fields@.len() == serializer.fields@.len()
    &&& forall|i: int|
        0 <= i < visitor.fields@.len() ==> paired(
            #[trigger] visitor.fields@[i],
            serializer.fields@[i],
        )
}

impl Catalog {
    /// Whether no key of the message belongs to two of its fields.
    pub open spec fn unambiguous(&self, visitor: StructVisitor) -> bool {
        forall|i: int, j: int, key: Seq<char>|
            0 <= i < j < visitor.fields@.len() ==> !(#[trigger] crate::decode::answers(
                *self,
                visitor.fields@[i],
                key,
            ) && #[trigger] crate::decode::answers(*self, visitor.fields@[j], key))
    }

    /// Whether what stands in for a value of the field that is missing or of
    /// the wrong shape can be written.
    pub open spec fn defaults_written(
        &self,
        visitor: FieldVisitor,
        serializer: FieldSerializer,
    ) -> bool {
        &&& visitor.tokens.value_getter_expr.fallback matches Some(default) ==> (
        visitor.tokens.value_getter_expr.ty is OneOf || crate::encode::spec_encode_field(
            *self,
            serializer,
            crate::decode::spec_masked(*self, visitor.tokens.value_getter_expr, default),
        ) is Ok)
        &&& visitor.tokens.narrowing_expr matches Narrowing::Default(default)
            ==> crate::encode::spec_encode_field(
            *self,
            serializer,
            crate::message::FieldValueView::Single(
                crate::decode::spec_default_value(*self, default, visitor.tokens.value_getter_expr),
            ),
        ) is Ok
    }

    /// Whether the two tables at the place `i` are those of one message, in
    /// which no key belongs to two fields and every default can be written.
    pub open spec fn wf_message(&self, i: int) -> bool {
        &&& coherent(self.visitors@[i], self.serializers@[i])
        &&& self.unambiguous(self.visitors@[i])
        &&& forall|k: int|
            0 <= k < self.visitors@[i].fields@.len() ==> self.defaults_written(
                #[trigger] self.visitors@[i].fields@[k],
                self.serializers@[i].fields@[k],
            )
    }

    /// The catalog is well formed: every enumeration is; no two variants of
    /// a oneof share a name; every message has its decoding table and its
    /// encoding table at the same place, the two are those of one message,
    /// no key of the message belongs to two of its fields, and the defaults
    /// of its fields can be written.
    pub open spec fn wf(&self) -> bool {
        &&& forall|i: int|
            0 <= i < self.enumerations@.len() ==> (#[trigger] self.enumerations@[i]).wf()
        &&& forall|i: int|
            0 <= i < self.oneofs@.len() ==> distinct(
                names_of((#[trigger] self.oneofs@[i]).variants@),
            )
        &&& self.visitors@.len() == self.serializers@.len()
        &&& forall|i: int| 0 <= i < self.visitors@.len() ==> #[trigger] self.wf_message(i)
    }
}

/// What is found by a name is one of the things looked through, and has
/// that name.
pub proof fn lemma_named<T: Named>(items: Seq<T>, key: Seq<char>)
    ensures
        match position(names_of(items), key) {
            Some(i) => 0 <= i < items.len() && named(items, key) == Some(items[i])
                && items[i].spec_name() == key,
            None => named(items, key) is None,
        },
{
    lemma_position(names_of(items), key, 0);
}

/// In a well-formed catalog the two tables of a message are found together,
/// and are those of one message.
pub proof fn lemma_tables_together(catalog: Catalog, name: Seq<char>)
    requires
        catalog.wf(),
    ensures
        match (catalog.spec_visitor(name), catalog.spec_serializer(name)) {
            (Some(visitor), Some(serializer)) => {
                &&& coherent(visitor, serializer)
                &&& catalog.unambiguous(visitor)
                &&& forall|k: int|
                    0 <= k < visitor.fields@.len() ==> catalog.defaults_written(
                        #[trigger] visitor.fields@[k],
                        serializer.fields@[k],
                    )
            },
            (None, None) => true,
            _ => false,
        },
{
    assert(names_of(catalog.visitors@) =~= names_of(catalog.serializers@)) by {
        assert forall|i: int| 0 <= i < catalog.visitors@.len() implies names_of(
            catalog.visitors@,
        )[i] == names_of(catalog.serializers@)[i] by {
            assert(catalog.wf_message(i));
        }
    }
    lemma_named(catalog.visitors@, name);
    lemma_named(catalog.serializers@, name);
    if let Some(i) = position(names_of(catalog.visitors@), name) {
        assert(catalog.wf_message(i));
    }
}

} // verus!
