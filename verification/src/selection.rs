//! Picking a version and a release out of the catalog by what the operator
//! entered.

use crate::catalog::{ReleaseStub, VersionEntry, VersionEntryView};
use crate::text::{chars_of, trim, trimmed};
use vstd::prelude::*;

verus! {

/// `at` is the position of the first entry under `identifier`.
pub open spec fn is_first_named(
    catalog: Seq<VersionEntryView>,
    identifier: Seq<char>,
    at: int,
) -> bool {
    &&& 0 <= at < catalog.len()
    &&& catalog[at].identifier == identifier
    &&& forall|j: int| 0 <= j < at ==> (#[trigger] catalog[j]).identifier != identifier
}

/// The position of the first entry of the catalog whose identifier is
/// `identifier`, character for character; `None` where no entry has it.
pub fn position_of_version(catalog: &Vec<VersionEntry>, identifier: &str) -> (r: Option<usize>)
    ensures
        match r {
            Some(at) => is_first_named(catalog.deep_view(), identifier@, at as int),
            None => forall|j: int|
                0 <= j < catalog.len() ==> (#[trigger] catalog.deep_view()[j]).identifier
                    != identifier@,
        },
{
    let wanted = identifier.to_owned();
    let mut at: usize = 0;
    while at < catalog.len()
        invariant
            at <= catalog.len(),
            wanted@ == identifier@,
            forall|j: int|
                0 <= j < at ==> (#[trigger] catalog.deep_view()[j]).identifier != identifier@,
        decreases catalog.len() - at,
    {
        assert(catalog.deep_view()[at as int].identifier == catalog[at as int].identifier@);
        if catalog[at].identifier == wanted {
            return Some(at);
        }
        at += 1;
    }
    None
}

/// The first entry of the catalog whose identifier is `identifier`.
pub fn find_version<'a>(catalog: &'a Vec<VersionEntry>, identifier: &str) -> (r: Option<
    &'a VersionEntry,
>)
    ensures
        match r {
            Some(entry) => exists|at: int|
                is_first_named(catalog.deep_view(), identifier@, at) && *entry == catalog[at],
            None => forall|j: int|
                0 <= j < catalog.len() ==> (#[trigger] catalog.deep_view()[j]).identifier
                    != identifier@,
        },
{
    match position_of_version(catalog, identifier) {
        Some(at) => Some(&catalog[at]),
        None => None,
    }
}

/// The release with the number `index`, counted from 1; `None` for 0 and
/// for a number beyond the last release.
pub fn release_at(entry: &VersionEntry, index: usize) -> (r: Option<&ReleaseStub>)
    ensures
        r is Some <==> 1 <= index <= entry.releases.len(),
        r matches Some(stub) ==> *stub == entry.releases[index - 1],
{
    if 1 <= index && index <= entry.releases.len() {
        Some(&entry.releases[index - 1])
    } else {
        None
    }
}

/// The value of a decimal digit.
pub open spec fn digit_value(c: char) -> Option<nat> {
    if '0' <= c <= '9' {
        Some((c as u32 - '0' as u32) as nat)
    } else {
        None
    }
}

/// Every character is a decimal digit.
pub open spec fn all_digits(text: Seq<char>) -> bool {
    forall|i: int| 0 <= i < text.len() ==> digit_value(#[trigger] text[i]) is Some
}

/// The number that decimal digits write.
pub open spec fn decimal_value(digits: Seq<char>) -> nat
    decreases digits.len(),
{
    if digits.len() == 0 {
        0
    } else {
        decimal_value(digits.drop_last()) * 10 + digit_value(digits.last()).unwrap()
    }
}

/// The number that `text` writes: one or more decimal digits, with or
/// without a plus sign before them, whose value fits. Anything else writes
/// no number.
pub open spec fn written_index(text: Seq<char>) -> Option<usize> {
    let digits = if text.len() > 0 && text[0] == '+' {
        text.skip(1)
    } else {
        text
    };
    if digits.len() > 0 && all_digits(digits) && decimal_value(digits) <= usize::MAX {
        Some(decimal_value(digits) as usize)
    } else {
        None
    }
}

/// More digits never write a smaller number.
pub proof fn lemma_decimal_value_grows(digits: Seq<char>, n: int)
    requires
        0 <= n <= digits.len(),
        all_digits(digits),
    ensures
        decimal_value(digits.take(n)) <= decimal_value(digits),
    decreases digits.len() - n,
{
    if n == digits.len() {
        assert(digits.take(n) == digits);
    } else {
        assert(digits.take(n + 1).drop_last() == digits.take(n));
        assert(digits.take(n + 1).last() == digits[n]);
        lemma_decimal_value_grows(digits, n + 1);
    }
}

/// Reads a number as the operator writes it.
pub fn parse_index(text: &str) -> (r: Option<usize>)
    ensures
        r == written_index(text@),
{
    let chars = chars_of(text);
    let start: usize = if chars.len() > 0 && chars[0] == '+' {
        1
    } else {
        0
    };
    if start == chars.len() {
        return None;
    }
    let ghost digits = text@.skip(start as int);
    proof {
        assert(text@.skip(0) == text@);
    }
    let mut value: usize = 0;
    let mut i: usize = start;
    while i < chars.len()
        invariant
            chars@ == text@,
            start <= i <= chars.len(),
            digits == text@.skip(start as int),
            digits.len() > 0,
            digits == if text@.len() > 0 && text@[0] == '+' {
                text@.skip(1)
            } else {
                text@
            },
            all_digits(digits.take(i - start)),
            value == decimal_value(digits.take(i - start)),
        decreases chars.len() - i,
    {
        let c = chars[i];
        proof {
            assert(digits[i - start] == c);
            assert(digits.take(i - start + 1).drop_last() == digits.take(i - start));
            assert(digits.take(i - start + 1).last() == c);
        }
        if !('0' <= c && c <= '9') {
            return None;
        }
        let d: usize = (c as u32 - '0' as u32) as usize;
        let next = match value.checked_mul(10) {
            Some(tens) => tens.checked_add(d),
            None => None,
        };
        match next {
            Some(n) => {
                value = n;
            },
            None => {
                proof {
                    if all_digits(digits) {
                        lemma_decimal_value_grows(digits, i - start + 1);
                    }
                }
                return None;
            },
        }
        i += 1;
    }
    proof {
        assert(digits.take(i - start) == digits);
    }
    Some(value)
}

/// The release that the operator's entry picks: the entry is taken without
/// the whitespace at its ends and read as a number counted from 1. `None`
/// where it writes no number or none of a release.
pub fn select_release<'a>(entry: &'a VersionEntry, input: &str) -> (r: Option<&'a ReleaseStub>)
    ensures
        r is Some <==> (written_index(trimmed(input@)) matches Some(index) && 1 <= index
            <= entry.releases.len()),
        r matches Some(stub) ==> *stub == entry.releases[written_index(
            trimmed(input@),
        ).unwrap() - 1],
{
    let cleaned = trim(input);
    match parse_index(cleaned.as_str()) {
        Some(index) => release_at(entry, index),
        None => None,
    }
}

/// The version that the operator's entry names: the entry is taken without
/// the whitespace at its ends and compared with the identifiers.
pub fn select_version<'a>(catalog: &'a Vec<VersionEntry>, input: &str) -> (r: Option<
    &'a VersionEntry,
>)
    ensures
        match r {
            Some(entry) => exists|at: int|
                is_first_named(catalog.deep_view(), trimmed(input@), at) && *entry
                    == catalog[at],
            None => forall|j: int|
                0 <= j < catalog.len() ==> (#[trigger] catalog.deep_view()[j]).identifier
                    != trimmed(input@),
        },
{
    let cleaned = trim(input);
    find_version(catalog, cleaned.as_str())
}

} // verus!
