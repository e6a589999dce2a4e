//! Small helpers on text.

use vstd::prelude::*;

verus! {

/// Whether `text` reads exactly as `literal`.
pub fn text_is(text: &String, literal: &str) -> (r: bool)
    ensures
        r == (text@ == literal@),
{
    let other = literal.to_owned();
    *text == other
}

/// The position of the first of `names` that reads as `key`, looking from
/// position `from` on.
pub open spec fn position_from(names: Seq<Seq<char>>, key: Seq<char>, from: int) -> Option<int>
    decreases names.len() - from,
{
    if from < 0 || from >= names.len() {
        None
    } else if names[from] == key {
        Some(from)
    } else {
        position_from(names, key, from + 1)
    }
}

/// The position of the first of `names` that reads as `key`.
pub open spec fn position(names: Seq<Seq<char>>, key: Seq<char>) -> Option<int> {
    position_from(names, key, 0)
}

/// The views of a list of strings.
pub open spec fn views(names: Seq<String>) -> Seq<Seq<char>> {
    Seq::new(names.len(), |i: int| names[i]@)
}

/// `position` finds a name exactly where one is, and then the first.
pub proof fn lemma_position(names: Seq<Seq<char>>, key: Seq<char>, from: int)
    requires
        0 <= from,
    ensures
        match position_from(names, key, from) {
            Some(i) => from <= i < names.len() && names[i] == key && forall|j: int|
                from <= j < i ==> names[j] != key,
            None => forall|j: int| from <= j < names.len() ==> names[j] != key,
        },
    decreases names.len() - from,
{
    if from < names.len() && names[from] != key {
        lemma_position(names, key, from + 1);
    }
}

/// Where no two of `names` are equal, each is found at its own position.
pub proof fn lemma_position_of_distinct(names: Seq<Seq<char>>, i: int)
    requires
        0 <= i < names.len(),
        distinct(names),
    ensures
        position(names, names[i]) == Some(i),
{
    lemma_position(names, names[i], 0);
}

/// No two of `names` are equal.
pub open spec fn distinct(names: Seq<Seq<char>>) -> bool {
    forall|i: int, j: int| 0 <= i < j < names.len() ==> names[i] != names[j]
}

} // verus!
