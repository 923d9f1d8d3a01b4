//! Character-level helpers on strings: whitespace, prefixes and substrings.

use vstd::prelude::*;

verus! {

/// The characters with the Unicode `White_Space` property.
pub open spec fn is_whitespace(c: char) -> bool {
    let code = c as u32;
    ||| 0x09 <= code <= 0x0D
    ||| code == 0x20
    ||| code == 0x85
    ||| code == 0xA0
    ||| code == 0x1680
    ||| 0x2000 <= code <= 0x200A
    ||| code == 0x2028
    ||| code == 0x2029
    ||| code == 0x202F
    ||| code == 0x205F
    ||| code == 0x3000
}

/// `needle` occurs in `hay` starting at position `at`.
pub open spec fn occurs_at(needle: Seq<char>, hay: Seq<char>, at: int) -> bool {
    &&& 0 <= at
    &&& at + needle.len() <= hay.len()
    &&& hay.subrange(at, at + needle.len()) == needle
}

/// `needle` is a contiguous part of `hay`. The empty sequence is a part of
/// every sequence.
pub open spec fn is_substring(needle: Seq<char>, hay: Seq<char>) -> bool {
    exists|at: int| occurs_at(needle, hay, at)
}

/// `at` is the position of the first whitespace character of `text`.
pub open spec fn is_first_whitespace(text: Seq<char>, at: int) -> bool {
    &&& 0 <= at < text.len()
    &&& is_whitespace(text[at])
    &&& forall|j: int| 0 <= j < at ==> !is_whitespace(#[trigger] text[j])
}

/// Some character of `text` is whitespace.
pub open spec fn has_whitespace(text: Seq<char>) -> bool {
    exists|at: int| 0 <= at < text.len() && is_whitespace(#[trigger] text[at])
}

/// What follows the first whitespace character of `text`: everything after
/// that one character, further whitespace included. `None` where `text` has
/// no whitespace.
pub open spec fn after_first_whitespace(text: Seq<char>) -> Option<Seq<char>> {
    if has_whitespace(text) {
        let at = choose|at: int| is_first_whitespace(text, at);
        Some(text.skip(at + 1))
    } else {
        None
    }
}

/// A sequence has at most one first whitespace position.
pub proof fn lemma_first_whitespace_unique(text: Seq<char>, a: int, b: int)
    requires
        is_first_whitespace(text, a),
        is_first_whitespace(text, b),
    ensures
        a == b,
{
    if a < b {
        assert(!is_whitespace(text[a]));
    } else if b < a {
        assert(!is_whitespace(text[b]));
    }
}

/// Whether `c` is a whitespace character.
pub fn char_is_whitespace(c: char) -> (b: bool)
    ensures
        b == is_whitespace(c),
{
    let code: u32 = c as u32;
    (0x09 <= code && code <= 0x0D) || code == 0x20 || code == 0x85 || code == 0xA0 || code
        == 0x1680 || (0x2000 <= code && code <= 0x200A) || code == 0x2028 || code == 0x2029
        || code == 0x202F || code == 0x205F || code == 0x3000
}

/// The characters of a string, in order.
pub fn chars_of(s: &str) -> (v: Vec<char>)
    ensures
        v@ == s@,
{
    let mut v: Vec<char> = Vec::new();
    for c in it: s.chars()
        invariant
            it.seq() == s@,
            v@ == it.seq().take(it.index()),
    {
        v.push(c);
    }
    v
}

/// Splits `text` at its first whitespace character and returns what follows
/// it.
pub fn split_after_whitespace(text: &str) -> (rest: Option<String>)
    ensures
        rest.deep_view() == after_first_whitespace(text@),
{
    let chars = chars_of(text);
    let mut at: usize = 0;
    while at < chars.len()
        invariant
            chars@ == text@,
            at <= chars.len(),
            forall|j: int| 0 <= j < at ==> !is_whitespace(#[trigger] text@[j]),
        decreases chars.len() - at,
    {
        if char_is_whitespace(chars[at]) {
            proof {
                assert(is_first_whitespace(text@, at as int));
                let chosen = choose|k: int| is_first_whitespace(text@, k);
                lemma_first_whitespace_unique(text@, at as int, chosen);
            }
            let rest = text.substring_char(at + 1, chars.len());
            return Some(rest.to_owned());
        }
        at += 1;
    }
    None
}

/// `text` without the whitespace at its two ends. A text of whitespace alone
/// gives the empty sequence.
pub open spec fn trimmed(text: Seq<char>) -> Seq<char>
    decreases text.len(),
{
    if text.len() == 0 {
        text
    } else if is_whitespace(text.first()) {
        trimmed(text.drop_first())
    } else if is_whitespace(text.last()) {
        trimmed(text.drop_last())
    } else {
        text
    }
}

/// The part of `text` from `from` up to `to` is what is left of `text` when
/// the whitespace at its two ends is taken away.
pub open spec fn is_core_of(text: Seq<char>, from: int, to: int) -> bool {
    &&& 0 <= from <= to <= text.len()
    &&& forall|i: int| 0 <= i < from ==> is_whitespace(#[trigger] text[i])
    &&& forall|i: int| to <= i < text.len() ==> is_whitespace(#[trigger] text[i])
    &&& from < to ==> !is_whitespace(text[from]) && !is_whitespace(text[to - 1])
}

/// `trimmed(text)` is a part of `text` with only whitespace before it and
/// after it, and with no whitespace at either of its own ends.
pub proof fn law_trimmed_is_the_core(text: Seq<char>)
    ensures
        exists|from: int, to: int| #[trigger]
            is_core_of(text, from, to) && trimmed(text) == text.subrange(from, to),
    decreases text.len(),
{
    if text.len() == 0 {
        assert(is_core_of(text, 0, 0));
        assert(text.subrange(0, 0) == text);
    } else if is_whitespace(text.first()) {
        let rest = text.drop_first();
        law_trimmed_is_the_core(rest);
        let (from, to) = choose|from: int, to: int| #[trigger]
            is_core_of(rest, from, to) && trimmed(rest) == rest.subrange(from, to);
        assert forall|i: int| 0 <= i < from + 1 implies is_whitespace(#[trigger] text[i]) by {
            if i > 0 {
                assert(text[i] == rest[i - 1]);
            }
        }
        assert forall|i: int| to + 1 <= i < text.len() implies is_whitespace(
            #[trigger] text[i],
        ) by {
            assert(text[i] == rest[i - 1]);
        }
        if from < to {
            assert(text[from + 1] == rest[from]);
            assert(text[to] == rest[to - 1]);
        }
        assert(is_core_of(text, from + 1, to + 1));
        assert(rest.subrange(from, to) == text.subrange(from + 1, to + 1));
    } else if is_whitespace(text.last()) {
        let rest = text.drop_last();
        law_trimmed_is_the_core(rest);
        let (from, to) = choose|from: int, to: int| #[trigger]
            is_core_of(rest, from, to) && trimmed(rest) == rest.subrange(from, to);
        assert forall|i: int| 0 <= i < from implies is_whitespace(#[trigger] text[i]) by {
            assert(text[i] == rest[i]);
        }
        assert forall|i: int| to <= i < text.len() implies is_whitespace(#[trigger] text[i]) by {
            if i < rest.len() {
                assert(text[i] == rest[i]);
            }
        }
        if from < to {
            assert(text[from] == rest[from]);
            assert(text[to - 1] == rest[to - 1]);
        }
        assert(is_core_of(text, from, to));
        assert(rest.subrange(from, to) == text.subrange(from, to));
    } else {
        assert(is_core_of(text, 0, text.len() as int));
        assert(text.subrange(0, text.len() as int) == text);
    }
}

/// A part of a part is a part of the whole.
pub proof fn lemma_substring_transitive(a: Seq<char>, b: Seq<char>, c: Seq<char>)
    requires
        is_substring(a, b),
        is_substring(b, c),
    ensures
        is_substring(a, c),
{
    let i = choose|at: int| occurs_at(a, b, at);
    let j = choose|at: int| occurs_at(b, c, at);
    let inner = b.subrange(i, i + a.len());
    let outer = c.subrange(i + j, i + j + a.len());
    assert forall|k: int| 0 <= k < a.len() implies #[trigger] outer[k] == inner[k] by {
        assert(c.subrange(j, j + b.len())[i + k] == c[j + i + k]);
    }
    assert(outer =~= inner);
    assert(occurs_at(a, c, i + j));
}

/// Removes the whitespace at the two ends of `text`.
pub fn trim(text: &str) -> (r: String)
    ensures
        r@ == trimmed(text@),
{
    let chars = chars_of(text);
    let mut from: usize = 0;
    assert(text@.skip(0) == text@);
    while from < chars.len() && char_is_whitespace(chars[from])
        invariant
            chars@ == text@,
            from <= chars.len(),
            trimmed(text@) == trimmed(text@.skip(from as int)),
        decreases chars.len() - from,
    {
        proof {
            let rest = text@.skip(from as int);
            assert(rest.first() == text@[from as int]);
            assert(rest.drop_first() == text@.skip(from + 1));
        }
        from += 1;
    }
    let mut to: usize = chars.len();
    assert(text@.skip(from as int) == text@.subrange(from as int, to as int));
    while to > from && char_is_whitespace(chars[to - 1])
        invariant
            chars@ == text@,
            from <= to <= chars.len(),
            from < chars.len() ==> !is_whitespace(text@[from as int]),
            trimmed(text@) == trimmed(text@.subrange(from as int, to as int)),
        decreases to - from,
    {
        proof {
            let part = text@.subrange(from as int, to as int);
            assert(part.first() == text@[from as int]);
            assert(part.last() == text@[to - 1]);
            assert(part.drop_last() == text@.subrange(from as int, to - 1));
        }
        to -= 1;
    }
    proof {
        let part = text@.subrange(from as int, to as int);
        if from < to {
            assert(part.first() == text@[from as int]);
            assert(part.last() == text@[to - 1]);
        }
    }
    text.substring_char(from, to).to_owned()
}

/// Whether `needle` occurs in `hay` at the character position `at`.
fn matches_at(needle: &Vec<char>, hay: &Vec<char>, at: usize) -> (b: bool)
    requires
        at + needle.len() <= hay.len(),
    ensures
        b == occurs_at(needle@, hay@, at as int),
{
    let mut k: usize = 0;
    while k < needle.len()
        invariant
            k <= needle.len(),
            at + needle.len() <= hay.len(),
            forall|j: int| 0 <= j < k ==> hay@[at + j] == needle@[j],
        decreases needle.len() - k,
    {
        if hay[at + k] != needle[k] {
            proof {
                let part = hay@.subrange(at as int, at + needle.len());
                assert(part[k as int] == hay@[at + k]);
            }
            return false;
        }
        k += 1;
    }
    assert(hay@.subrange(at as int, at + needle.len()) =~= needle@);
    true
}

/// Whether `needle` is a contiguous part of `hay`, compared character by
/// character.
pub fn contains(hay: &str, needle: &str) -> (b: bool)
    ensures
        b == is_substring(needle@, hay@),
{
    let hay_chars = chars_of(hay);
    let needle_chars = chars_of(needle);
    if needle_chars.len() > hay_chars.len() {
        return false;
    }
    let last: usize = hay_chars.len() - needle_chars.len();
    let mut at: usize = 0;
    while at < last
        invariant
            hay_chars@ == hay@,
            needle_chars@ == needle@,
            last == hay_chars.len() - needle_chars.len(),
            at <= last,
            forall|j: int| 0 <= j < at ==> !occurs_at(needle@, hay@, j),
        decreases last - at,
    {
        if matches_at(&needle_chars, &hay_chars, at) {
            return true;
        }
        at += 1;
    }
    matches_at(&needle_chars, &hay_chars, last)
}

/// Whether `text` begins with `prefix`.
pub fn starts_with(text: &str, prefix: &str) -> (b: bool)
    ensures
        b == prefix@.is_prefix_of(text@),
{
    let text_chars = chars_of(text);
    let prefix_chars = chars_of(prefix);
    if prefix_chars.len() > text_chars.len() {
        return false;
    }
    let b = matches_at(&prefix_chars, &text_chars, 0);
    b
}

} // verus!
