//! The scanners of the assembler: each computes, on a slice of characters,
//! the function of the same name in the syntax.

use vstd::prelude::*;
use crate::assembler::syntax;

verus! {

/// Whether a character is whitespace.
pub fn is_whitespace(c: char) -> (found: bool)
    ensures
        found == syntax::is_whitespace(c),
{
    let n = c as u32;
    (0x09 <= n && n <= 0x0D) || n == 0x20 || n == 0x85 || n == 0xA0 || n == 0x1680 || (0x2000 <= n
        && n <= 0x200A) || n == 0x2028 || n == 0x2029 || n == 0x202F || n == 0x205F || n == 0x3000
}

/// The characters of a line.
pub fn chars_of(line: &str) -> (text: Vec<char>)
    ensures
        text@ == line@,
{
    let mut text: Vec<char> = Vec::new();
    for c in it: line.chars()
        invariant
            text@ == it.seq().take(it.index() as int),
    {
        text.push(c);
    }
    text
}

/// The characters of a line that are no whitespace.
pub fn strip_whitespace(line: &str) -> (text: Vec<char>)
    ensures
        text@ == syntax::strip_whitespace(line@),
{
    let mut text: Vec<char> = Vec::new();
    proof {
        reveal(Seq::filter);
    }
    for c in it: line.chars()
        invariant
            it.seq() == line@,
            text@ == line@.take(it.index() as int).filter(syntax::not_whitespace()),
    {
        proof {
            reveal(Seq::filter);
            let seen = line@.take(it.index() + 1);
            assert(seen.drop_last() =~= line@.take(it.index() as int));
        }
        if !is_whitespace(c) {
            text.push(c);
        }
    }
    assert(line@.take(line@.len() as int) =~= line@);
    text
}

/// Whether `pattern` stands in `text` at index `at`.
pub fn occurs_at(text: &[char], pattern: &[char], at: usize) -> (found: bool)
    ensures
        found == syntax::occurs_at(text@, pattern@, at as int),
{
    if at > text.len() || pattern.len() > text.len() - at {
        return false;
    }
    let mut i: usize = 0;
    while i < pattern.len()
        invariant
            at + pattern.len() <= text.len(),
            i <= pattern.len(),
            forall|j: int| 0 <= j < i ==> text@[at + j] == pattern@[j],
        decreases pattern.len() - i,
    {
        if text[at + i] != pattern[i] {
            return false;
        }
        i = i + 1;
    }
    assert(text@.subrange(at as int, at + pattern@.len()) =~= pattern@);
    true
}

/// Whether `text` begins with `pattern`.
pub fn starts_with(text: &[char], pattern: &[char]) -> (found: bool)
    ensures
        found == syntax::occurs_at(text@, pattern@, 0),
{
    occurs_at(text, pattern, 0)
}

/// The first index at which `pattern` stands in `text`.
pub fn find(text: &[char], pattern: &[char]) -> (at: Option<usize>)
    ensures
        match at {
            Some(i) => syntax::find(text@, pattern@) == Some(i as int) && i + pattern.len()
                <= text.len(),
            None => syntax::find(text@, pattern@) is None,
        },
{
    if pattern.len() > text.len() {
        return None;
    }
    let last = text.len() - pattern.len();
    let mut from: usize = 0;
    loop
        invariant
            last == text.len() - pattern.len(),
            from <= last,
            syntax::find(text@, pattern@) == syntax::find_from(text@, pattern@, from as int),
        decreases last - from,
    {
        if occurs_at(text, pattern, from) {
            return Some(from);
        }
        if from == last {
            assert(syntax::find_from(text@, pattern@, from + 1) is None);
            return None;
        }
        from = from + 1;
    }
}

/// What stands before and after the first occurrence of `pattern` in
/// `text`.
pub fn split_once<'a>(text: &'a [char], pattern: &[char]) -> (parts: Option<(&'a [char], &'a [char])>)
    ensures
        match parts {
            Some((before, after)) => syntax::split_once(text@, pattern@) == Some(
                (before@, after@),
            ),
            None => syntax::split_once(text@, pattern@) is None,
        },
{
    match find(text, pattern) {
        Some(at) => Some((&text[0..at], &text[at + pattern.len()..text.len()])),
        None => None,
    }
}

/// What follows `pattern` in a text that begins with it.
pub fn strip_prefix<'a>(text: &'a [char], pattern: &[char]) -> (rest: Option<&'a [char]>)
    ensures
        match rest {
            Some(r) => syntax::strip_prefix(text@, pattern@) == Some(r@),
            None => syntax::strip_prefix(text@, pattern@) is None,
        },
{
    if starts_with(text, pattern) {
        Some(&text[pattern.len()..text.len()])
    } else {
        None
    }
}

/// The value of a digit in a radix.
pub fn digit_value(c: char, radix: u32) -> (value: Option<u32>)
    ensures
        match value {
            Some(d) => syntax::digit_value(c, radix as nat) == Some(d as nat) && d < radix,
            None => syntax::digit_value(c, radix as nat) is None,
        },
{
    let value: u32 = if '0' <= c && c <= '9' {
        c as u32 - '0' as u32
    } else if 'a' <= c && c <= 'z' {
        c as u32 - 'a' as u32 + 10
    } else if 'A' <= c && c <= 'Z' {
        c as u32 - 'A' as u32 + 10
    } else {
        return None;
    };
    if value < radix {
        Some(value)
    } else {
        None
    }
}

/// The word that a text of digits writes in a radix: `None` for a text that
/// is empty, holds anything but digits of the radix, or writes a number of
/// more than 32 bits.
pub fn word_of(digits: &[char], radix: u32) -> (word: Option<u32>)
    ensures
        word == syntax::word_of(digits@, radix as nat),
{
    if digits.len() == 0 {
        return None;
    }
    let mut value: u64 = 0;
    let mut i: usize = 0;
    while i < digits.len()
        invariant
            i <= digits@.len(),
            forall|j: int| 0 <= j < i ==> syntax::digit_value(#[trigger] digits@[j], radix as nat) is Some,
            value == syntax::number_value(digits@.take(i as int), radix as nat),
            value <= u32::MAX,
        decreases digits@.len() - i,
    {
        let digit = match digit_value(digits[i], radix) {
            Some(d) => d,
            None => {
                return None;
            },
        };
        proof {
            let seen = digits@.take(i + 1);
            assert(seen.drop_last() =~= digits@.take(i as int));
            assert(value * radix <= 0xFFFF_FFFF * 0xFFFF_FFFF) by (nonlinear_arith)
                requires
                    value <= 0xFFFF_FFFF,
                    radix <= 0xFFFF_FFFF,
            ;
        }
        value = value * (radix as u64) + (digit as u64);
        if value > u32::MAX as u64 {
            proof {
                syntax::lemma_number_value_grows(digits@, radix as nat, i + 1);
            }
            return None;
        }
        i = i + 1;
    }
    assert(digits@.take(i as int) =~= digits@);
    Some(value as u32)
}

/// The index of a register reference.
pub fn register(text: &[char]) -> (index: Option<u32>)
    ensures
        index == syntax::register(text@),
{
    assert(['r']@ =~= seq!['r']);
    match strip_prefix(text, &['r']) {
        Some(digits) => word_of(digits, 10),
        None => None,
    }
}

/// The indexes of two register references.
pub fn register_pair(first: &[char], second: &[char]) -> (pair: Option<(u32, u32)>)
    ensures
        pair == syntax::register_pair(first@, second@),
{
    Some((register(first)?, register(second)?))
}

/// The registers of the segment and of the offset in `m[rX][rY]`.
pub fn memory_reference(text: &[char]) -> (pair: Option<(u32, u32)>)
    ensures
        pair == syntax::memory_reference(text@),
{
    let len = text.len();
    if len >= 3 && starts_with(text, &['m', '[']) && text[len - 1] == ']' {
        match split_once(&text[2..len - 1], &[']', '[']) {
            Some((segment, offset)) => register_pair(segment, offset),
            None => None,
        }
    } else {
        None
    }
}

/// The two registers of `rX if rY`.
pub fn condition(text: &[char]) -> (pair: Option<(u32, u32)>)
    ensures
        pair == syntax::condition(text@),
{
    match split_once(text, &['i', 'f']) {
        Some((source, test)) => register_pair(source, test),
        None => None,
    }
}

/// The register of the size in `map rX`.
pub fn size(text: &[char]) -> (index: Option<u32>)
    ensures
        index == syntax::size(text@),
{
    match strip_prefix(text, &['m', 'a', 'p']) {
        Some(rest) => register(rest),
        None => None,
    }
}

/// The value of a literal: hexadecimal after `0x`, binary after `0b`,
/// decimal otherwise.
pub fn literal(text: &[char]) -> (value: Option<u32>)
    ensures
        value == syntax::literal(text@),
{
    if let Some(hex) = strip_prefix(text, &['0', 'x']) {
        word_of(hex, 16)
    } else if let Some(bin) = strip_prefix(text, &['0', 'b']) {
        word_of(bin, 2)
    } else {
        word_of(text, 10)
    }
}

} // verus!
