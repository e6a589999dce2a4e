//! JSON as a tree of values. An object keeps its members in the order in
//! which they were written, and may hold a key more than once.

use vstd::prelude::*;

verus! {

/// A JSON number as it was written: a non-negative integer, a negative
/// integer, or a number with a fraction or an exponent, kept as the 64 bits
/// of its binary form.
#[derive(Debug, Clone, Copy, PartialEq, Eq, Structural)]
pub enum Number {
    PosInt(u64),
    NegInt(i64),
    Float(u64),
}

impl Number {
    /// The integer that the number is, if it was written as one.
    pub open spec fn integer(&self) -> Option<int> {
        match self {
            Number::PosInt(n) => Some(*n as int),
            Number::NegInt(n) => Some(*n as int),
            Number::Float(_) => None,
        }
    }

    /// Whether the number was written as an integer that lies between
    /// `low` and `high`, both included.
    pub fn is_integer_within(&self, low: i64, high: u64) -> (r: bool)
        ensures
            r == (self.integer() is Some && low <= self.integer()->0 <= high),
    {
        match self {
            Number::PosInt(n) => (low <= 0 || *n >= low as u64) && *n <= high,
            Number::NegInt(n) => low <= *n && (*n < 0 || *n as u64 <= high),
            Number::Float(_) => false,
        }
    }
}

/// A JSON value.
#[derive(Debug, PartialEq, Eq)]
pub enum JsonValue {
    Null,
    Bool(bool),
    Number(Number),
    String(String),
    Array(Vec<JsonValue>),
    Object(Vec<Member>),
}

/// A member of a JSON object.
#[derive(Debug, PartialEq, Eq)]
pub struct Member {
    pub key: String,
    pub value: JsonValue,
}

/// What a `JsonValue` holds.
pub enum JsonView {
    Null,
    Bool(bool),
    Number(Number),
    String(Seq<char>),
    Array(Seq<JsonView>),
    Object(Seq<MemberView>),
}

/// What a `Member` holds.
pub struct MemberView {
    pub key: Seq<char>,
    pub value: JsonView,
}

/// What `value` holds.
pub open spec fn json_view(value: JsonValue) -> JsonView
    decreases value,
{
    match value {
        JsonValue::Null => JsonView::Null,
        JsonValue::Bool(b) => JsonView::Bool(b),
        JsonValue::Number(n) => JsonView::Number(n),
        JsonValue::String(s) => JsonView::String(s@),
        JsonValue::Array(items) => JsonView::Array(
            Seq::new(
                items@.len(),
                |i: int|
                    if 0 <= i < items@.len() {
                        json_view(items@[i])
                    } else {
                        JsonView::Null
                    },
            ),
        ),
        JsonValue::Object(members) => JsonView::Object(
            Seq::new(
                members@.len(),
                |i: int|
                    if 0 <= i < members@.len() {
                        MemberView { key: members@[i].key@, value: json_view(members@[i].value) }
                    } else {
                        MemberView { key: Seq::empty(), value: JsonView::Null }
                    },
            ),
        ),
    }
}

impl View for JsonValue {
    type V = JsonView;

    open spec fn view(&self) -> JsonView {
        json_view(*self)
    }
}

impl View for Member {
    type V = MemberView;

    open spec fn view(&self) -> MemberView {
        MemberView { key: self.key@, value: self.value@ }
    }
}

/// What a list of values holds.
pub open spec fn items_view(items: Seq<JsonValue>) -> Seq<JsonView> {
    Seq::new(items.len(), |i: int| items[i]@)
}

/// What a list of members holds.
pub open spec fn members_view(members: Seq<Member>) -> Seq<MemberView> {
    Seq::new(members.len(), |i: int| members[i]@)
}

/// An array holds what its items hold.
pub proof fn lemma_array_view(items: Vec<JsonValue>)
    ensures
        JsonValue::Array(items)@ == JsonView::Array(items_view(items@)),
{
    assert(json_view(JsonValue::Array(items)) matches JsonView::Array(s) && s =~= items_view(
        items@,
    ));
}

/// An object holds what its members hold.
pub proof fn lemma_object_view(members: Vec<Member>)
    ensures
        JsonValue::Object(members)@ == JsonView::Object(members_view(members@)),
{
    assert(json_view(JsonValue::Object(members)) matches JsonView::Object(s) && s
        =~= members_view(members@));
}

/// Whether no value lies deeper in `json` than `limit` arrays and objects,
/// one inside the other.
pub open spec fn spec_within_depth(json: JsonView, limit: nat) -> bool
    decreases json, 1int,
{
    match json {
        JsonView::Array(items) => limit > 0 && items_within_depth(items, (limit - 1) as nat),
        JsonView::Object(members) => limit > 0 && members_within_depth(
            members,
            (limit - 1) as nat,
        ),
        _ => true,
    }
}

/// Whether every one of `items` is within the depth `limit`.
pub open spec fn items_within_depth(items: Seq<JsonView>, limit: nat) -> bool
    decreases items, 0int,
{
    forall|i: int| 0 <= i < items.len() ==> spec_within_depth(#[trigger] items[i], limit)
}

/// Whether the value of every one of `members` is within the depth `limit`.
pub open spec fn members_within_depth(members: Seq<MemberView>, limit: nat) -> bool
    decreases members, 0int,
{
    forall|i: int|
        0 <= i < members.len() ==> spec_within_depth((#[trigger] members[i]).value, limit)
}

impl JsonValue {
    /// Whether no value lies deeper in the tree than `limit` arrays and
    /// objects, one inside the other. The check itself goes no deeper than
    /// the limit, so it bounds the depth to which a tree from an untrusted
    /// source is followed.
    pub fn within_depth(&self, limit: usize) -> (r: bool)
        ensures
            r == spec_within_depth(self@, limit as nat),
        decreases self,
    {
        match self {
            JsonValue::Array(items) => {
                proof {
                    lemma_array_view(*items);
                }
                if limit == 0 {
                    return false;
                }
                let mut i: usize = 0;
                while i < items.len()
                    invariant
                        i <= items@.len(),
                        limit > 0,
                        self@ == JsonView::Array(items_view(items@)),
                        forall|k: int|
                            0 <= k < i ==> spec_within_depth(
                                #[trigger] items_view(items@)[k],
                                (limit - 1) as nat,
                            ),
                        forall|k: int|
                            0 <= k < items@.len() ==> decreases_to!(self => #[trigger] items@[k]),
                    decreases items@.len() - i,
                {
                    assert(items_view(items@)[i as int] == items@[i as int]@);
                    if !items[i].within_depth(limit - 1) {
                        return false;
                    }
                    i += 1;
                }
                true
            },
            JsonValue::Object(members) => {
                proof {
                    lemma_object_view(*members);
                }
                if limit == 0 {
                    return false;
                }
                let mut i: usize = 0;
                while i < members.len()
                    invariant
                        i <= members@.len(),
                        limit > 0,
                        self@ == JsonView::Object(members_view(members@)),
                        forall|k: int|
                            0 <= k < i ==> spec_within_depth(
                                (#[trigger] members_view(members@)[k]).value,
                                (limit - 1) as nat,
                            ),
                        forall|k: int|
                            0 <= k < members@.len() ==> decreases_to!(self => (
                            #[trigger] members@[k]).value),
                    decreases members@.len() - i,
                {
                    assert(members_view(members@)[i as int].value == members@[i as int].value@);
                    if !members[i].value.within_depth(limit - 1) {
                        return false;
                    }
                    i += 1;
                }
                true
            },
            _ => true,
        }
    }
}

} // verus!
