//! Text helpers over the characters of a string: prefix and suffix tests,
//! the order in which paths are kept, and splitting at a separator.

use vstd::prelude::*;
use vstd::std_specs::iter::IteratorSpec;
use vstd::string::StrSliceExecFns;
use vstd::string::StringExecFns;

verus! {

/// The texts of a sequence of strings.
pub open spec fn texts_of(strings: Seq<String>) -> Seq<Seq<char>> {
    Seq::new(strings.len(), |i: int| strings[i]@)
}

/// Whether `prefix` stands at the start of `text`.
pub open spec fn has_prefix(text: Seq<char>, prefix: Seq<char>) -> bool {
    prefix.len() <= text.len() && text.subrange(0, prefix.len() as int) == prefix
}

/// Whether `suffix` stands at the end of `text`.
pub open spec fn has_suffix(text: Seq<char>, suffix: Seq<char>) -> bool {
    suffix.len() <= text.len() && text.subrange(text.len() - suffix.len(), text.len() as int)
        == suffix
}

/// The order of two texts: character by character, by code point, a proper
/// prefix before what extends it.
pub open spec fn text_lt(a: Seq<char>, b: Seq<char>) -> bool
    decreases a.len(),
{
    if b.len() == 0 {
        false
    } else if a.len() == 0 {
        true
    } else if a[0] == b[0] {
        text_lt(a.drop_first(), b.drop_first())
    } else {
        a[0] < b[0]
    }
}

/// How one text stands to another in the order of [`text_lt`].
#[derive(Clone, Copy, Debug, PartialEq, Eq, Structural)]
pub enum Rank {
    Before,
    Same,
    After,
}

/// No text comes before itself.
pub proof fn lemma_text_lt_irreflexive(a: Seq<char>)
    ensures
        !text_lt(a, a),
    decreases a.len(),
{
    if a.len() > 0 {
        lemma_text_lt_irreflexive(a.drop_first());
    }
}

/// Of two texts at most one comes before the other.
pub proof fn lemma_text_lt_asymmetric(a: Seq<char>, b: Seq<char>)
    requires
        text_lt(a, b),
    ensures
        !text_lt(b, a),
    decreases a.len(),
{
    if a.len() > 0 && b.len() > 0 && a[0] == b[0] {
        lemma_text_lt_asymmetric(a.drop_first(), b.drop_first());
    }
}

/// The order is transitive.
pub proof fn lemma_text_lt_transitive(a: Seq<char>, b: Seq<char>, c: Seq<char>)
    requires
        text_lt(a, b),
        text_lt(b, c),
    ensures
        text_lt(a, c),
    decreases a.len(),
{
    if a.len() > 0 && a[0] == b[0] && b[0] == c[0] {
        lemma_text_lt_transitive(a.drop_first(), b.drop_first(), c.drop_first());
    }
}

/// Two different texts are ordered one way or the other.
pub proof fn lemma_text_lt_total(a: Seq<char>, b: Seq<char>)
    ensures
        a == b || text_lt(a, b) || text_lt(b, a),
    decreases a.len(),
{
    if a.len() > 0 && b.len() > 0 && a[0] == b[0] {
        lemma_text_lt_total(a.drop_first(), b.drop_first());
        if a.drop_first() == b.drop_first() {
            assert(a =~= seq![a[0]] + a.drop_first());
            assert(b =~= seq![b[0]] + b.drop_first());
        }
    } else if a.len() == 0 && b.len() == 0 {
        assert(a =~= b);
    } else if a.len() > 0 && b.len() > 0 {
        assert(a[0] < b[0] || b[0] < a[0]);
    }
}

/// The characters of `text`, one by one.
pub fn chars_of(text: &str) -> (chars: Vec<char>)
    ensures
        chars@ == text@,
{
    let mut chars: Vec<char> = Vec::new();
    let mut rest = text.chars();
    loop
        invariant
            rest.obeys_prophetic_iter_laws(),
            chars@ + rest.remaining() == text@,
        decreases text@.len() - chars@.len(),
    {
        match rest.next() {
            Some(c) => {
                chars.push(c);
            },
            None => {
                return chars;
            },
        }
    }
}

/// Compares two texts in the order of [`text_lt`].
pub fn rank(a: &str, b: &str) -> (r: Rank)
    ensures
        r == Rank::Before <==> text_lt(a@, b@),
        r == Rank::Same <==> a@ == b@,
        r == Rank::After <==> text_lt(b@, a@),
{
    let mut left = a.chars();
    let mut right = b.chars();
    let ghost mut seen: int = 0;
    proof {
        lemma_text_lt_irreflexive(a@);
        if text_lt(a@, b@) {
            lemma_text_lt_asymmetric(a@, b@);
        }
        assert(a@.skip(0) == a@);
        assert(b@.skip(0) == b@);
    }
    loop
        invariant
            left.obeys_prophetic_iter_laws(),
            right.obeys_prophetic_iter_laws(),
            0 <= seen <= a@.len(),
            seen <= b@.len(),
            left.remaining() == a@.skip(seen),
            right.remaining() == b@.skip(seen),
            a@.take(seen) == b@.take(seen),
            text_lt(a@, b@) == text_lt(a@.skip(seen), b@.skip(seen)),
            text_lt(b@, a@) == text_lt(b@.skip(seen), a@.skip(seen)),
            !text_lt(a@, a@),
            text_lt(a@, b@) ==> !text_lt(b@, a@),
        decreases a@.len() - seen,
    {
        let x = left.next();
        let y = right.next();
        match (x, y) {
            (None, None) => {
                assert(a@ =~= a@.take(seen));
                assert(b@ =~= b@.take(seen));
                return Rank::Same;
            },
            (None, Some(_)) => {
                return Rank::Before;
            },
            (Some(_), None) => {
                return Rank::After;
            },
            (Some(p), Some(q)) => {
                if p != q {
                    assert(a@[seen] != b@[seen]);
                    if p < q {
                        return Rank::Before;
                    } else {
                        return Rank::After;
                    }
                }
                proof {
                    assert(a@.skip(seen).drop_first() == a@.skip(seen + 1));
                    assert(b@.skip(seen).drop_first() == b@.skip(seen + 1));
                    assert(a@.take(seen + 1) == a@.take(seen).push(a@[seen]));
                    assert(b@.take(seen + 1) == b@.take(seen).push(b@[seen]));
                    seen = seen + 1;
                }
            },
        }
    }
}

/// Tests whether two texts hold the same characters.
pub fn text_eq(a: &str, b: &str) -> (same: bool)
    ensures
        same == (a@ == b@),
{
    rank(a, b) == Rank::Same
}

/// Tests whether `text` begins with `prefix`.
pub fn starts_with(text: &str, prefix: &str) -> (found: bool)
    ensures
        found == has_prefix(text@, prefix@),
{
    let mut rest = text.chars();
    let mut wanted = prefix.chars();
    let ghost mut seen: int = 0;
    loop
        invariant
            rest.obeys_prophetic_iter_laws(),
            wanted.obeys_prophetic_iter_laws(),
            0 <= seen <= prefix@.len(),
            seen <= text@.len(),
            rest.remaining() == text@.skip(seen),
            wanted.remaining() == prefix@.skip(seen),
            text@.take(seen) == prefix@.take(seen),
        decreases prefix@.len() - seen,
    {
        match wanted.next() {
            None => {
                assert(prefix@.take(seen) == prefix@);
                return true;
            },
            Some(want) => {
                match rest.next() {
                    None => {
                        return false;
                    },
                    Some(got) => {
                        if got != want {
                            assert(has_prefix(text@, prefix@) ==> text@.subrange(
                                0,
                                prefix@.len() as int,
                            )[seen] == prefix@[seen]);
                            return false;
                        }
                        proof {
                            assert(text@.take(seen + 1) == text@.take(seen).push(text@[seen]));
                            assert(prefix@.take(seen + 1) == prefix@.take(seen).push(
                                prefix@[seen],
                            ));
                            seen = seen + 1;
                        }
                    },
                }
            },
        }
    }
}

/// Tests whether `text` ends with `suffix`.
pub fn ends_with(text: &str, suffix: &str) -> (found: bool)
    ensures
        found == has_suffix(text@, suffix@),
{
    let len = text.unicode_len();
    let tail = suffix.unicode_len();
    if tail > len {
        return false;
    }
    text_eq(text.substring_char(len - tail, len), suffix)
}

/// The place of the first `wanted` in `text` at or behind `from`; the length
/// of `text` where there is none.
pub open spec fn first_index_from(text: Seq<char>, wanted: char, from: int) -> int
    decreases text.len() - from,
{
    if from >= text.len() {
        text.len() as int
    } else if from >= 0 && text[from] == wanted {
        from
    } else {
        first_index_from(text, wanted, from + 1)
    }
}

/// `first_index_from` finds the character or the end, and passes over no
/// place that holds the character.
pub proof fn lemma_first_index_from(text: Seq<char>, wanted: char, from: int)
    requires
        0 <= from,
    ensures
        from <= text.len() ==> from <= first_index_from(text, wanted, from) <= text.len(),
        from > text.len() ==> first_index_from(text, wanted, from) == text.len(),
        first_index_from(text, wanted, from) < text.len() ==> text[first_index_from(
            text,
            wanted,
            from,
        )] == wanted,
        forall|i: int| from <= i < first_index_from(text, wanted, from) ==> text[i] != wanted,
    decreases text.len() - from,
{
    if from < text.len() && text[from] != wanted {
        lemma_first_index_from(text, wanted, from + 1);
    }
}

/// The parts of `text` from `from` on that `separator` keeps apart, in
/// their order. There is one part more than there are separators, so that
/// an empty text has one empty part.
pub open spec fn split_from(text: Seq<char>, separator: char, from: int) -> Seq<Seq<char>>
    decreases text.len() - from,
{
    let cut = first_index_from(text, separator, from);
    if from < 0 || from > text.len() {
        Seq::empty()
    } else if cut >= text.len() || cut < from {
        seq![text.subrange(from, text.len() as int)]
    } else {
        seq![text.subrange(from, cut)] + split_from(text, separator, cut + 1)
    }
}

/// The parts of `text` that `separator` keeps apart.
pub open spec fn split_of(text: Seq<char>, separator: char) -> Seq<Seq<char>> {
    split_from(text, separator, 0)
}

/// Finds the first `wanted` at or behind `from`.
pub fn find_from(text: &Vec<char>, wanted: char, from: usize) -> (place: usize)
    ensures
        place == first_index_from(text@, wanted, from as int),
        place <= text@.len(),
        from <= text@.len() ==> from <= place,
{
    let mut place: usize = from;
    while place < text.len() && text[place] != wanted
        invariant
            from <= place,
            first_index_from(text@, wanted, from as int) == first_index_from(
                text@,
                wanted,
                place as int,
            ),
        decreases text.len() - place,
    {
        place += 1;
    }
    if place > text.len() {
        text.len()
    } else {
        place
    }
}

/// Splits `text` at every `separator`.
pub fn split(text: &str, separator: char) -> (parts: Vec<String>)
    ensures
        texts_of(parts@) == split_of(text@, separator),
{
    let chars = chars_of(text);
    let mut parts: Vec<String> = Vec::new();
    let mut from: usize = 0;
    assert(texts_of(parts@) =~= Seq::<Seq<char>>::empty());
    loop
        invariant
            chars@ == text@,
            from <= chars@.len(),
            split_of(text@, separator) == texts_of(parts@) + split_from(
                text@,
                separator,
                from as int,
            ),
        decreases chars@.len() - from,
    {
        let cut = find_from(&chars, separator, from);
        let ghost before = texts_of(parts@);
        let part = String::from_str(text.substring_char(from, cut));
        parts.push(part);
        assert(texts_of(parts@) =~= before.push(text@.subrange(from as int, cut as int)));
        if cut >= chars.len() {
            assert(before + seq![text@.subrange(from as int, cut as int)] =~= before.push(
                text@.subrange(from as int, cut as int),
            ));
            return parts;
        }
        proof {
            let rest = split_from(text@, separator, cut + 1);
            assert(before + (seq![text@.subrange(from as int, cut as int)] + rest) =~= before.push(
                text@.subrange(from as int, cut as int),
            ) + rest);
        }
        from = cut + 1;
    }
}

/// The text made of `a` followed by `b`.
pub fn join2(a: &str, b: &str) -> (joined: String)
    ensures
        joined@ == a@ + b@,
{
    let mut joined = String::from_str(a);
    joined.append(b);
    joined
}

} // verus!
