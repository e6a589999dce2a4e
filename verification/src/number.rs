//! Decimal text: the tag of a field, and the list of tags of a oneof.

use vstd::prelude::*;

verus! {

/// The value of a decimal digit.
pub open spec fn digit_value(c: char) -> Option<int> {
    if c == '0' {
        Some(0)
    } else if c == '1' {
        Some(1)
    } else if c == '2' {
        Some(2)
    } else if c == '3' {
        Some(3)
    } else if c == '4' {
        Some(4)
    } else if c == '5' {
        Some(5)
    } else if c == '6' {
        Some(6)
    } else if c == '7' {
        Some(7)
    } else if c == '8' {
        Some(8)
    } else if c == '9' {
        Some(9)
    } else {
        None
    }
}

/// Whether every character of `s` is a decimal digit.
pub open spec fn all_digits(s: Seq<char>) -> bool {
    forall|i: int| 0 <= i < s.len() ==> (#[trigger] digit_value(s[i])) is Some
}

/// The number that a run of decimal digits denotes.
pub open spec fn decimal(s: Seq<char>) -> int
    decreases s.len(),
{
    if s.len() == 0 {
        0
    } else {
        match digit_value(s.last()) {
            Some(d) => decimal(s.drop_last()) * 10 + d,
            None => decimal(s.drop_last()) * 10,
        }
    }
}

/// The `i32` that `s` denotes: an optional sign, then one or more decimal
/// digits, the whole within the range of `i32`.
pub open spec fn spec_parse_i32(s: Seq<char>) -> Option<i32> {
    let signed = s.len() > 0 && (s[0] == '-' || s[0] == '+');
    let digits = if signed {
        s.subrange(1, s.len() as int)
    } else {
        s
    };
    let value = if signed && s[0] == '-' {
        -decimal(digits)
    } else {
        decimal(digits)
    };
    if digits.len() == 0 || !all_digits(digits) || value < i32::MIN || value > i32::MAX {
        None
    } else {
        Some(value as i32)
    }
}

/// A run of digits denotes no less than any run that it starts with.
pub proof fn lemma_decimal_grows(s: Seq<char>, k: int)
    requires
        0 <= k <= s.len(),
    ensures
        0 <= decimal(s.subrange(0, k)) <= decimal(s),
    decreases s.len() - k,
{
    if k == s.len() {
        assert(s.subrange(0, k) =~= s);
        lemma_decimal_nonnegative(s);
    } else {
        lemma_decimal_grows(s.drop_last(), k);
        assert(s.drop_last().subrange(0, k) =~= s.subrange(0, k));
    }
}

/// A run of digits denotes no negative number.
pub proof fn lemma_decimal_nonnegative(s: Seq<char>)
    ensures
        0 <= decimal(s),
    decreases s.len(),
{
    if s.len() > 0 {
        lemma_decimal_nonnegative(s.drop_last());
    }
}

/// The value of the decimal digit `c`.
pub fn digit_of(c: char) -> (r: Option<u8>)
    ensures
        match digit_value(c) {
            Some(d) => r == Some(d as u8),
            None => r is None,
        },
{
    match c {
        '0' => Some(0),
        '1' => Some(1),
        '2' => Some(2),
        '3' => Some(3),
        '4' => Some(4),
        '5' => Some(5),
        '6' => Some(6),
        '7' => Some(7),
        '8' => Some(8),
        '9' => Some(9),
        _ => None,
    }
}

/// The characters of `text`, one by one.
pub fn chars_of(text: &str) -> (r: Vec<char>)
    ensures
        r@ == text@,
{
    let n = text.unicode_len();
    let mut out: Vec<char> = Vec::new();
    let mut i: usize = 0;
    while i < n
        invariant
            i <= n,
            n == text@.len(),
            out@ == text@.subrange(0, i as int),
        decreases n - i,
    {
        out.push(text.get_char(i));
        assert(out@ =~= text@.subrange(0, i as int + 1));
        i += 1;
    }
    assert(text@.subrange(0, n as int) =~= text@);
    out
}

/// Reads the characters of `text` from `from` up to `to` as an `i32`.
fn parse_i32_between(text: &Vec<char>, from: usize, to: usize) -> (r: Option<i32>)
    requires
        from <= to <= text@.len(),
    ensures
        r == spec_parse_i32(text@.subrange(from as int, to as int)),
{
    let ghost s = text@.subrange(from as int, to as int);
    if from == to {
        return None;
    }
    let negative = text[from] == '-';
    let signed = negative || text[from] == '+';
    let start: usize = if signed {
        from + 1
    } else {
        from
    };
    let ghost digits = text@.subrange(start as int, to as int);
    assert(s[0] == text@[from as int]);
    assert(signed ==> digits =~= s.subrange(1, s.len() as int));
    assert(!signed ==> digits =~= s);
    if start == to {
        return None;
    }
    let mut total: i64 = 0;
    let mut i: usize = start;
    assert(digits.subrange(0, 0) =~= Seq::<char>::empty());
    while i < to
        invariant
            start <= i <= to <= text@.len(),
            from < to,
            s == text@.subrange(from as int, to as int),
            signed == (s[0] == '-' || s[0] == '+'),
            negative == (s[0] == '-'),
            digits == if signed {
                s.subrange(1, s.len() as int)
            } else {
                s
            },
            digits == text@.subrange(start as int, to as int),
            all_digits(digits.subrange(0, i - start)),
            total == decimal(digits.subrange(0, i - start)),
            0 <= total <= 2147483648,
        decreases to - i,
    {
        let ghost before = digits.subrange(0, i - start);
        let ghost after = digits.subrange(0, i - start + 1);
        assert(after.drop_last() =~= before);
        assert(after.last() == text@[i as int]);
        match digit_of(text[i]) {
            None => {
                assert(digit_value(digits[i - start]) is None);
                return None;
            },
            Some(d) => {
                total = total * 10 + (d as i64);
                assert(total == decimal(after));
                if total > 2147483648 {
                    proof {
                        lemma_decimal_grows(digits, i - start + 1);
                    }
                    return None;
                }
                assert forall|j: int| 0 <= j < after.len() implies (#[trigger] digit_value(
                    after[j],
                )) is Some by {
                    if j < before.len() {
                        assert(after[j] == before[j]);
                    }
                }
            },
        }
        i += 1;
    }
    assert(digits.subrange(0, to - start) =~= digits);
    if negative {
        Some((-total) as i32)
    } else if total == 2147483648 {
        None
    } else {
        Some(total as i32)
    }
}

/// Reads `text` as an `i32`.
pub fn parse_i32(text: &str) -> (r: Option<i32>)
    ensures
        r == spec_parse_i32(text@),
{
    let chars = chars_of(text);
    let n = chars.len();
    assert(chars@.subrange(0, n as int) =~= chars@);
    parse_i32_between(&chars, 0, n)
}

/// The position of the first `", "` in `s` at or after `from`.
pub open spec fn separator_from(s: Seq<char>, from: int) -> Option<int>
    decreases s.len() - from,
{
    if from < 0 || from + 1 >= s.len() {
        None
    } else if s[from] == ',' && s[from + 1] == ' ' {
        Some(from)
    } else {
        separator_from(s, from + 1)
    }
}

/// A separator lies within the text, at or after the place the search
/// started from.
pub proof fn lemma_separator_bounds(s: Seq<char>, from: int)
    requires
        0 <= from,
    ensures
        separator_from(s, from) is Some ==> from <= separator_from(s, from)->0 < s.len() - 1,
    decreases s.len() - from,
{
    if from + 1 < s.len() && !(s[from] == ',' && s[from + 1] == ' ') {
        lemma_separator_bounds(s, from + 1);
    }
}

/// The pieces that the separators `", "` cut the rest of `s` into, from
/// `from` on; without a separator, the rest is the one piece.
pub open spec fn pieces_from(s: Seq<char>, from: int) -> Seq<Seq<char>>
    decreases s.len() - from,
{
    if from < 0 || from > s.len() {
        Seq::empty()
    } else {
        match separator_from(s, from) {
            Some(i) => if from <= i < s.len() - 1 {
                seq![s.subrange(from, i)] + pieces_from(s, i + 2)
            } else {
                Seq::empty()
            },
            None => seq![s.subrange(from, s.len() as int)],
        }
    }
}

/// The tags that `s` lists, separated by `", "`: every piece is an `i32`.
pub open spec fn spec_parse_tags(s: Seq<char>) -> Option<Seq<i32>> {
    let pieces = pieces_from(s, 0);
    if forall|i: int| 0 <= i < pieces.len() ==> (#[trigger] spec_parse_i32(pieces[i])) is Some {
        Some(Seq::new(pieces.len(), |i: int| spec_parse_i32(pieces[i])->0))
    } else {
        None
    }
}

/// Finds the first `", "` in `text` at or after `from`.
fn find_separator(text: &Vec<char>, from: usize) -> (r: Option<usize>)
    requires
        from <= text@.len(),
    ensures
        match separator_from(text@, from as int) {
            Some(i) => r == Some(i as usize) && from <= i < text@.len() - 1,
            None => r is None,
        },
{
    let mut i: usize = from;
    while text.len() - i >= 2
        invariant
            from <= i <= text@.len(),
            separator_from(text@, from as int) == separator_from(text@, i as int),
        decreases text@.len() - i,
    {
        if text[i] == ',' && text[i + 1] == ' ' {
            return Some(i);
        }
        i += 1;
    }
    None
}

/// Reads `text` as a list of tags separated by `", "`.
pub fn parse_tags(text: &str) -> (r: Option<Vec<i32>>)
    ensures
        match spec_parse_tags(text@) {
            Some(tags) => r is Some && r->0@ == tags,
            None => r is None,
        },
{
    let chars = chars_of(text);
    let n = chars.len();
    let mut tags: Vec<i32> = Vec::new();
    let mut from: usize = 0;
    let ghost mut done: Seq<Seq<char>> = Seq::empty();
    loop
        invariant
            from <= n == chars@.len(),
            chars@ == text@,
            pieces_from(chars@, 0) == done + pieces_from(chars@, from as int),
            tags@.len() == done.len(),
            forall|i: int|
                0 <= i < done.len() ==> spec_parse_i32(done[i]) == Some(#[trigger] tags@[i]),
        decreases n - from,
    {
        let ghost all = pieces_from(chars@, 0);
        let ghost rest = pieces_from(chars@, from as int);
        match find_separator(&chars, from) {
            Some(i) => {
                let ghost piece = chars@.subrange(from as int, i as int);
                assert(rest == seq![piece] + pieces_from(chars@, i + 2));
                assert(all[done.len() as int] == piece);
                match parse_i32_between(&chars, from, i) {
                    None => {
                        assert(spec_parse_i32(all[done.len() as int]) is None);
                        return None;
                    },
                    Some(tag) => {
                        tags.push(tag);
                        proof {
                            assert(all =~= done.push(piece) + pieces_from(chars@, i + 2));
                            done = done.push(piece);
                        }
                        assert(from as int <= i as int);
                        from = i + 2;
                    },
                }
            },
            None => {
                let ghost piece = chars@.subrange(from as int, n as int);
                assert(rest == seq![piece]);
                assert(all =~= done.push(piece));
                match parse_i32_between(&chars, from, n) {
                    None => {
                        assert(spec_parse_i32(all[done.len() as int]) is None);
                        return None;
                    },
                    Some(tag) => {
                        let ghost earlier = tags@;
                        tags.push(tag);
                        proof {
                            assert forall|i: int| 0 <= i < all.len() implies #[trigger] spec_parse_i32(
                                all[i],
                            ) == Some(tags@[i]) by {
                                if i < done.len() {
                                    assert(all[i] == done[i]);
                                    assert(tags@[i] == earlier[i]);
                                }
                            }
                            assert(tags@ =~= Seq::new(
                                all.len(),
                                |i: int| spec_parse_i32(all[i])->0,
                            ));
                        }
                        return Some(tags);
                    },
                }
            },
        }
    }
}

} // verus!
