//! Checking a catalog before it is used: that its tables belong together
//! and that every key of a message leads to one field.

use vstd::prelude::*;
use crate::attr::{FieldModifier, ProtobufType};
use crate::catalog::{coherent, names_of, paired, Catalog, EnumRegistry, EnumVariant, Named};
use crate::decode::{answers, answers_to, default_value, masked};
use crate::deserialize::field::Narrowing;
use crate::deserialize::structure::{FieldVisitor, StructVisitor};
use crate::encode::encode_field;
use crate::message::FieldValue;
use crate::serialize::field::FieldSerializer;
use crate::serialize::structure::StructSerializer;
use crate::text::{distinct, lemma_position, position};

verus! {

/// Whether no two of `items` share a name.
pub fn names_are_distinct<T: Named>(items: &Vec<T>) -> (r: bool)
    ensures
        r == distinct(names_of(items@)),
{
    let ghost names = names_of(items@);
    let mut j: usize = 0;
    while j < items.len()
        invariant
            j <= items@.len(),
            names == names_of(items@),
            forall|a: int, b: int| 0 <= a < b < j ==> names[a] != names[b],
        decreases items@.len() - j,
    {
        let mut i: usize = 0;
        while i < j
            invariant
                i <= j < items@.len(),
                names == names_of(items@),
                forall|a: int, b: int| 0 <= a < b < j ==> names[a] != names[b],
                forall|a: int| 0 <= a < i ==> names[a] != names[j as int],
            decreases j - i,
        {
            if *items[i].name() == *items[j].name() {
                assert(names[i as int] == names[j as int]);
                return false;
            }
            i += 1;
        }
        j += 1;
    }
    true
}

/// Whether no two of `variants` share a discriminant.
pub fn values_are_distinct(variants: &Vec<EnumVariant>) -> (r: bool)
    ensures
        r == (forall|i: int, j: int|
            0 <= i < j < variants@.len() ==> variants@[i].value != variants@[j].value),
{
    let mut j: usize = 0;
    while j < variants.len()
        invariant
            j <= variants@.len(),
            forall|a: int, b: int| 0 <= a < b < j ==> variants@[a].value != variants@[b].value,
        decreases variants@.len() - j,
    {
        let mut i: usize = 0;
        while i < j
            invariant
                i <= j < variants@.len(),
                forall|a: int, b: int| 0 <= a < b < j ==> variants@[a].value != variants@[b].value,
                forall|a: int| 0 <= a < i ==> variants@[a].value != variants@[j as int].value,
            decreases j - i,
        {
            if variants[i].value == variants[j].value {
                return false;
            }
            i += 1;
        }
        j += 1;
    }
    true
}

impl EnumRegistry {
    /// Whether the registry is well formed.
    pub fn check(&self) -> (r: bool)
        ensures
            r == self.wf(),
    {
        self.variants.len() > 0 && names_are_distinct(&self.variants) && values_are_distinct(
            &self.variants,
        )
    }
}

/// Whether some key belongs to both fields.
pub open spec fn share_a_key(catalog: Catalog, a: FieldVisitor, b: FieldVisitor) -> bool {
    exists|key: Seq<char>| #[trigger] answers(catalog, a, key) && answers(catalog, b, key)
}

/// Whether some key belongs to both fields: the name of the one, or the
/// name of one of its variants, is one that the other answers to.
pub fn fields_share_a_key(catalog: &Catalog, a: &FieldVisitor, b: &FieldVisitor) -> (r: bool)
    ensures
        r == share_a_key(*catalog, *a, *b),
{
    match &a.variant.ty {
        None => {
            let shared = answers_to(catalog, b, &a.variant.ident);
            proof {
                if shared {
                    assert(answers(*catalog, *a, a.variant.ident@));
                }
            }
            shared
        },
        Some(path) => match catalog.oneof(path) {
            None => false,
            Some(registry) => {
                let ghost names = names_of(registry.variants@);
                let mut k: usize = 0;
                while k < registry.variants.len()
                    invariant
                        k <= registry.variants@.len(),
                        names == names_of(registry.variants@),
                        a.variant.ty == Some(*path),
                        catalog.spec_oneof(path@) == Some(*registry),
                        forall|i: int| 0 <= i < k ==> !answers(*catalog, *b, #[trigger] names[i]),
                    decreases registry.variants@.len() - k,
                {
                    if answers_to(catalog, b, &registry.variants[k].name) {
                        proof {
                            let key = names[k as int];
                            lemma_position(names, key, 0);
                            assert(answers(*catalog, *a, key));
                        }
                        return true;
                    }
                    k += 1;
                }
                proof {
                    assert forall|key: Seq<char>| !(#[trigger] answers(*catalog, *a, key)
                        && answers(*catalog, *b, key)) by {
                        if answers(*catalog, *a, key) {
                            lemma_position(names, key, 0);
                            let i = position(names, key)->0;
                            assert(names[i] == key);
                        }
                    }
                }
                false
            },
        },
    }
}

/// Whether no key of the message belongs to two of its fields.
pub fn keys_are_unambiguous(catalog: &Catalog, visitor: &StructVisitor) -> (r: bool)
    ensures
        r == catalog.unambiguous(*visitor),
{
    let mut j: usize = 0;
    while j < visitor.fields.len()
        invariant
            j <= visitor.fields@.len(),
            forall|a: int, b: int|
                0 <= a < b < j ==> !share_a_key(*catalog, visitor.fields@[a], visitor.fields@[b]),
        decreases visitor.fields@.len() - j,
    {
        let mut i: usize = 0;
        while i < j
            invariant
                i <= j < visitor.fields@.len(),
                forall|a: int, b: int|
                    0 <= a < b < j ==> !share_a_key(
                        *catalog,
                        visitor.fields@[a],
                        visitor.fields@[b],
                    ),
                forall|a: int|
                    0 <= a < i ==> !share_a_key(
                        *catalog,
                        visitor.fields@[a],
                        visitor.fields@[j as int],
                    ),
            decreases j - i,
        {
            if fields_share_a_key(catalog, &visitor.fields[i], &visitor.fields[j]) {
                proof {
                    let key = choose|key: Seq<char>| #[trigger]
                        answers(*catalog, visitor.fields@[i as int], key) && answers(
                            *catalog,
                            visitor.fields@[j as int],
                            key,
                        );
                    assert(answers(*catalog, visitor.fields@[i as int], key) && answers(
                        *catalog,
                        visitor.fields@[j as int],
                        key,
                    ));
                }
                return false;
            }
            i += 1;
        }
        j += 1;
    }
    proof {
        assert forall|a: int, b: int, key: Seq<char>|
            0 <= a < b < visitor.fields@.len() implies !(#[trigger] answers(
            *catalog,
            visitor.fields@[a],
            key,
        ) && #[trigger] answers(*catalog, visitor.fields@[b], key)) by {
            assert(!share_a_key(*catalog, visitor.fields@[a], visitor.fields@[b]));
        }
    }
    true
}

/// Whether the two entries are those of one field.
pub fn entries_are_paired(visitor: &FieldVisitor, serializer: &FieldSerializer) -> (r: bool)
    ensures
        r == paired(*visitor, *serializer),
{
    let getter = &visitor.tokens.value_getter_expr;
    match serializer {
        FieldSerializer::Flatten { oneof } => {
            let keyed = match &visitor.variant.ty {
                Some(path) => *path == *oneof,
                None => false,
            };
            let typed = match &getter.ty {
                ProtobufType::OneOf(path) => *path == *oneof,
                _ => false,
            };
            let unset = match &visitor.tokens.narrowing_expr {
                Narrowing::Unset => true,
                _ => false,
            };
            keyed && typed && unset
        },
        FieldSerializer::Emit { name, ty, modifier, message } => {
            let plain = match ty {
                ProtobufType::OneOf(_) => false,
                _ => true,
            };
            let same_modifier = match (getter.modifier, modifier) {
                (FieldModifier::Singular, FieldModifier::Singular) => true,
                (FieldModifier::Repeated, FieldModifier::Repeated) => true,
                (FieldModifier::Optional, FieldModifier::Optional) => true,
                _ => false,
            };
            let narrowed = match (modifier, &visitor.tokens.narrowing_expr) {
                (FieldModifier::Singular, Narrowing::Required) => true,
                (FieldModifier::Singular, Narrowing::Default(_)) => true,
                (FieldModifier::Repeated, Narrowing::Empty) => true,
                (FieldModifier::Optional, Narrowing::Absent) => true,
                _ => false,
            };
            visitor.variant.ty.is_none() && visitor.variant.ident == *name && getter.ty.same(ty)
                && plain && same_modifier && getter.message == *message && narrowed
        },
    }
}

/// Whether the two tables are those of one message.
pub fn tables_are_coherent(visitor: &StructVisitor, serializer: &StructSerializer) -> (r: bool)
    ensures
        r == coherent(*visitor, *serializer),
{
    if !(visitor.name == serializer.name) || visitor.fields.len() != serializer.fields.len() {
        return false;
    }
    let mut i: usize = 0;
    while i < visitor.fields.len()
        invariant
            i <= visitor.fields@.len(),
            visitor.name@ == serializer.name@,
            visitor.fields@.len() == serializer.fields@.len(),
            forall|k: int|
                0 <= k < i ==> paired(#[trigger] visitor.fields@[k], serializer.fields@[k]),
        decreases visitor.fields@.len() - i,
    {
        if !entries_are_paired(&visitor.fields[i], &serializer.fields[i]) {
            return false;
        }
        i += 1;
    }
    true
}

/// Whether what stands in for a value of the field that is missing or of
/// the wrong shape can be written.
pub fn defaults_are_written(
    catalog: &Catalog,
    visitor: &FieldVisitor,
    serializer: &FieldSerializer,
) -> (r: bool)
    ensures
        r == catalog.defaults_written(*visitor, *serializer),
{
    let getter = &visitor.tokens.value_getter_expr;
    if let Some(default) = &getter.fallback {
        let oneof = match &getter.ty {
            ProtobufType::OneOf(_) => true,
            _ => false,
        };
        if !oneof {
            let stand_in = masked(catalog, getter, default);
            if encode_field(catalog, serializer, &stand_in).is_err() {
                return false;
            }
        }
    }
    if let Narrowing::Default(default) = &visitor.tokens.narrowing_expr {
        let stand_in = FieldValue::Single(default_value(catalog, default, getter));
        if encode_field(catalog, serializer, &stand_in).is_err() {
            return false;
        }
    }
    true
}

impl Catalog {
    /// Whether the two tables at the place `i` are those of one message, in
    /// which no key belongs to two fields and every default can be written.
    fn check_message(&self, i: usize) -> (r: bool)
        requires
            i < self.visitors@.len(),
            i < self.serializers@.len(),
        ensures
            r == self.wf_message(i as int),
    {
        let visitor = &self.visitors[i];
        let serializer = &self.serializers[i];
        if !tables_are_coherent(visitor, serializer) || !keys_are_unambiguous(self, visitor) {
            return false;
        }
        let mut k: usize = 0;
        while k < visitor.fields.len()
            invariant
                k <= visitor.fields@.len(),
                *visitor == self.visitors@[i as int],
                *serializer == self.serializers@[i as int],
                coherent(*visitor, *serializer),
                self.unambiguous(*visitor),
                forall|j: int|
                    0 <= j < k ==> self.defaults_written(
                        #[trigger] visitor.fields@[j],
                        serializer.fields@[j],
                    ),
            decreases visitor.fields@.len() - k,
        {
            if !defaults_are_written(self, &visitor.fields[k], &serializer.fields[k]) {
                return false;
            }
            k += 1;
        }
        true
    }

    /// Whether the catalog is well formed. A catalog that is not must not be
    /// used: its declarations are in error.
    pub fn check(&self) -> (r: bool)
        ensures
            r == self.wf(),
    {
        let mut e: usize = 0;
        while e < self.enumerations.len()
            invariant
                e <= self.enumerations@.len(),
                forall|i: int| 0 <= i < e ==> (#[trigger] self.enumerations@[i]).wf(),
            decreases self.enumerations@.len() - e,
        {
            if !self.enumerations[e].check() {
                return false;
            }
            e += 1;
        }
        let mut o: usize = 0;
        while o < self.oneofs.len()
            invariant
                o <= self.oneofs@.len(),
                forall|i: int| 0 <= i < self.enumerations@.len() ==> (
                #[trigger] self.enumerations@[i]).wf(),
                forall|i: int|
                    0 <= i < o ==> distinct(names_of((#[trigger] self.oneofs@[i]).variants@)),
            decreases self.oneofs@.len() - o,
        {
            if !names_are_distinct(&self.oneofs[o].variants) {
                return false;
            }
            o += 1;
        }
        if self.visitors.len() != self.serializers.len() {
            return false;
        }
        let mut m: usize = 0;
        while m < self.visitors.len()
            invariant
                m <= self.visitors@.len(),
                self.visitors@.len() == self.serializers@.len(),
                forall|i: int| 0 <= i < self.enumerations@.len() ==> (
                #[trigger] self.enumerations@[i]).wf(),
                forall|i: int|
                    0 <= i < self.oneofs@.len() ==> distinct(
                        names_of((#[trigger] self.oneofs@[i]).variants@),
                    ),
                forall|i: int| 0 <= i < m ==> #[trigger] self.wf_message(i),
            decreases self.visitors@.len() - m,
        {
            if !self.check_message(m) {
                return false;
            }
            m += 1;
        }
        true
    }
}

} // verus!
