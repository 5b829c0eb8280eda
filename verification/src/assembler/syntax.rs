//! The syntax of assembly lines: what each text means, as functions on
//! sequences of characters.

use vstd::prelude::*;
use crate::instruction::{load_value_word, three_reg_word};
use crate::um::UmOperations;

verus! {

/// The characters that count as whitespace: those that Unicode marks as
/// White_Space.
pub open spec fn is_whitespace(c: char) -> bool {
    let n = c as u32;
    ||| 0x09 <= n <= 0x0D
    ||| n == 0x20
    ||| n == 0x85
    ||| n == 0xA0
    ||| n == 0x1680
    ||| 0x2000 <= n <= 0x200A
    ||| n == 0x2028
    ||| n == 0x2029
    ||| n == 0x202F
    ||| n == 0x205F
    ||| n == 0x3000
}

/// The test that keeps what is no whitespace.
pub open spec fn not_whitespace() -> spec_fn(char) -> bool {
    |c: char| !is_whitespace(c)
}

/// A line without its whitespace.
pub open spec fn strip_whitespace(line: Seq<char>) -> Seq<char> {
    line.filter(not_whitespace())
}

/// `pattern` stands in `text` at index `at`.
pub open spec fn occurs_at(text: Seq<char>, pattern: Seq<char>, at: int) -> bool {
    &&& 0 <= at
    &&& at + pattern.len() <= text.len()
    &&& text.subrange(at, at + pattern.len()) == pattern
}

/// The first index at or after `from` at which `pattern` stands in `text`.
pub open spec fn find_from(text: Seq<char>, pattern: Seq<char>, from: int) -> Option<int>
    decreases text.len() + 1 - from,
{
    if from < 0 || from + pattern.len() > text.len() {
        None
    } else if occurs_at(text, pattern, from) {
        Some(from)
    } else {
        find_from(text, pattern, from + 1)
    }
}

/// The first index at which `pattern` stands in `text`.
pub open spec fn find(text: Seq<char>, pattern: Seq<char>) -> Option<int> {
    find_from(text, pattern, 0)
}

/// What stands before and after the first occurrence of `pattern` in `text`.
pub open spec fn split_once(text: Seq<char>, pattern: Seq<char>) -> Option<(Seq<char>, Seq<char>)> {
    match find(text, pattern) {
        Some(at) => Some(
            (text.subrange(0, at), text.subrange(at + pattern.len(), text.len() as int)),
        ),
        None => None,
    }
}

/// What follows `pattern` in a text that begins with it.
pub open spec fn strip_prefix(text: Seq<char>, pattern: Seq<char>) -> Option<Seq<char>> {
    if occurs_at(text, pattern, 0) {
        Some(text.subrange(pattern.len() as int, text.len() as int))
    } else {
        None
    }
}

/// The value of a digit in a radix: `0` to `9` count 0 to 9, and a letter
/// counts from 10 for `a` or `A`; a character whose value is not below the
/// radix is no digit.
pub open spec fn digit_value(c: char, radix: nat) -> Option<nat> {
    let value: int = if '0' <= c <= '9' {
        c as int - '0' as int
    } else if 'a' <= c <= 'z' {
        c as int - 'a' as int + 10
    } else if 'A' <= c <= 'Z' {
        c as int - 'A' as int + 10
    } else {
        -1
    };
    if 0 <= value < radix {
        Some(value as nat)
    } else {
        None
    }
}

/// A text of one digit or more, and of digits only.
pub open spec fn is_number(digits: Seq<char>, radix: nat) -> bool {
    &&& digits.len() > 0
    &&& forall|i: int| 0 <= i < digits.len() ==> digit_value(#[trigger] digits[i], radix) is Some
}

/// The number that a text of digits writes, the most significant digit
/// first.
pub open spec fn number_value(digits: Seq<char>, radix: nat) -> nat
    decreases digits.len(),
{
    if digits.len() == 0 {
        0
    } else {
        let low = match digit_value(digits.last(), radix) {
            Some(d) => d,
            None => 0,
        };
        number_value(digits.drop_last(), radix) * radix + low
    }
}

/// The word that a text writes in a radix: the text is a number, without a
/// sign, and its value fits in 32 bits.
pub open spec fn word_of(digits: Seq<char>, radix: nat) -> Option<u32> {
    if is_number(digits, radix) && number_value(digits, radix) <= u32::MAX {
        Some(number_value(digits, radix) as u32)
    } else {
        None
    }
}

/// A register reference: the letter `r` and a decimal index. The index is
/// not held to the eight registers.
pub open spec fn register(text: Seq<char>) -> Option<u32> {
    match strip_prefix(text, seq!['r']) {
        Some(digits) => word_of(digits, 10),
        None => None,
    }
}

/// Two register references.
pub open spec fn register_pair(first: Seq<char>, second: Seq<char>) -> Option<(u32, u32)> {
    match (register(first), register(second)) {
        (Some(x), Some(y)) => Some((x, y)),
        _ => None,
    }
}

/// A memory reference `m[rX][rY]`: the registers of the segment and of the
/// offset.
pub open spec fn memory_reference(text: Seq<char>) -> Option<(u32, u32)> {
    if occurs_at(text, seq!['m', '['], 0) && text.len() >= 3 && text.last() == ']' {
        match split_once(text.subrange(2, text.len() - 1), seq![']', '[']) {
            Some((segment, offset)) => register_pair(segment, offset),
            None => None,
        }
    } else {
        None
    }
}

/// A condition `rX if rY`: the register that is moved and the register that
/// is tested.
pub open spec fn condition(text: Seq<char>) -> Option<(u32, u32)> {
    match split_once(text, seq!['i', 'f']) {
        Some((source, test)) => register_pair(source, test),
        None => None,
    }
}

/// A size `map rX`: the register that holds the size.
pub open spec fn size(text: Seq<char>) -> Option<u32> {
    match strip_prefix(text, seq!['m', 'a', 'p']) {
        Some(rest) => register(rest),
        None => None,
    }
}

/// A literal: hexadecimal after `0x`, binary after `0b`, decimal otherwise.
pub open spec fn literal(text: Seq<char>) -> Option<u32> {
    match strip_prefix(text, seq!['0', 'x']) {
        Some(hex) => word_of(hex, 16),
        None => match strip_prefix(text, seq!['0', 'b']) {
            Some(bin) => word_of(bin, 2),
            None => word_of(text, 10),
        },
    }
}

/// The instruction `op` on register A and the two registers that `first`
/// and `second` name.
pub open spec fn binary(op: UmOperations, a: u32, first: Seq<char>, second: Seq<char>) -> Option<u32> {
    match register_pair(first, second) {
        Some((b, c)) => Some(three_reg_word(op.spec_code(), a, b, c)),
        None => None,
    }
}

/// The instruction `op` on the register that `text` names, as register C.
pub open spec fn unary(op: UmOperations, text: Seq<char>) -> Option<u32> {
    match register(text) {
        Some(c) => Some(three_reg_word(op.spec_code(), 0, 0, c)),
        None => None,
    }
}

/// What stands right of `:=` after a register: the first of `+`, `*`, `/`
/// and `nand` that occurs in it makes it an operation on the registers left
/// and right of its first occurrence; without any of them it is a load from
/// a segment, a conditional move, a map, or a literal.
pub open spec fn expression(a: u32, right: Seq<char>) -> Option<u32> {
    if let Some((first, second)) = split_once(right, seq!['+']) {
        binary(UmOperations::ADD, a, first, second)
    } else if let Some((first, second)) = split_once(right, seq!['*']) {
        binary(UmOperations::MUL, a, first, second)
    } else if let Some((first, second)) = split_once(right, seq!['/']) {
        binary(UmOperations::DIV, a, first, second)
    } else if let Some((first, second)) = split_once(right, seq!['n', 'a', 'n', 'd']) {
        binary(UmOperations::NAND, a, first, second)
    } else if let Some((b, c)) = memory_reference(right) {
        Some(three_reg_word(UmOperations::SLOAD.spec_code(), a, b, c))
    } else if let Some((b, c)) = condition(right) {
        Some(three_reg_word(UmOperations::CMOV.spec_code(), a, b, c))
    } else if let Some(c) = size(right) {
        Some(three_reg_word(UmOperations::MAP.spec_code(), 0, a, c))
    } else if let Some(value) = literal(right) {
        Some(load_value_word(UmOperations::LV.spec_code(), a, value))
    } else {
        None
    }
}

/// A line with `:=`, `left` and `right` being what stands on its two sides:
/// a store where `left` begins with `m[`, else a register and an expression.
pub open spec fn assignment(left: Seq<char>, right: Seq<char>) -> Option<u32> {
    if occurs_at(left, seq!['m', '['], 0) {
        match (memory_reference(left), register(right)) {
            (Some((a, b)), Some(c)) => Some(
                three_reg_word(UmOperations::SSTORE.spec_code(), a, b, c),
            ),
            _ => None,
        }
    } else {
        match register(left) {
            Some(a) => expression(a, right),
            None => None,
        }
    }
}

/// A line without `:=`: `unmap`, `out` or `in` and a register, `goto` and a
/// memory reference, or `halt`; the mnemonics are tried in this order.
pub open spec fn statement(text: Seq<char>) -> Option<u32> {
    if let Some(rest) = strip_prefix(text, seq!['u', 'n', 'm', 'a', 'p']) {
        unary(UmOperations::UNMAP, rest)
    } else if let Some(rest) = strip_prefix(text, seq!['o', 'u', 't']) {
        unary(UmOperations::OUT, rest)
    } else if let Some(rest) = strip_prefix(text, seq!['i', 'n']) {
        unary(UmOperations::IN, rest)
    } else if let Some(rest) = strip_prefix(text, seq!['g', 'o', 't', 'o']) {
        match memory_reference(rest) {
            Some((b, c)) => Some(three_reg_word(UmOperations::LOADP.spec_code(), 0, b, c)),
            None => None,
        }
    } else if text == seq!['h', 'a', 'l', 't'] {
        Some(three_reg_word(UmOperations::HALT.spec_code(), 0, 0, 0))
    } else {
        None
    }
}

/// The instruction word of a line that holds no whitespace: the line is
/// split at its first `:=`, if it has one.
pub open spec fn instruction(text: Seq<char>) -> Option<u32> {
    match split_once(text, seq![':', '=']) {
        Some((left, right)) => assignment(left, right),
        None => statement(text),
    }
}

/// The instruction word of a line of assembly, or `None` where the line is
/// no instruction. Whitespace counts nowhere in the line.
pub open spec fn assemble_line(line: Seq<char>) -> Option<u32> {
    instruction(strip_whitespace(line))
}

/// `find` gives the first occurrence: the pattern stands at the index that
/// it returns and at none before it, and nowhere where it returns `None`.
pub proof fn lemma_find_first(text: Seq<char>, pattern: Seq<char>)
    ensures
        match find(text, pattern) {
            Some(at) => occurs_at(text, pattern, at) && forall|earlier: int|
                0 <= earlier < at ==> !occurs_at(text, pattern, earlier),
            None => forall|at: int| !occurs_at(text, pattern, at),
        },
{
    lemma_find_from(text, pattern, 0);
}

proof fn lemma_find_from(text: Seq<char>, pattern: Seq<char>, from: int)
    requires
        0 <= from,
    ensures
        match find_from(text, pattern, from) {
            Some(at) => from <= at && occurs_at(text, pattern, at) && forall|earlier: int|
                from <= earlier < at ==> !occurs_at(text, pattern, earlier),
            None => forall|at: int| from <= at ==> !occurs_at(text, pattern, at),
        },
    decreases text.len() + 1 - from,
{
    if from + pattern.len() > text.len() {
    } else if occurs_at(text, pattern, from) {
    } else {
        lemma_find_from(text, pattern, from + 1);
    }
}

/// The value of a text of digits is at least that of each of its prefixes.
pub proof fn lemma_number_value_grows(digits: Seq<char>, radix: nat, prefix: int)
    requires
        radix >= 1,
        0 <= prefix <= digits.len(),
    ensures
        number_value(digits.take(prefix), radix) <= number_value(digits, radix),
    decreases digits.len(),
{
    if prefix == digits.len() {
        assert(digits.take(prefix) =~= digits);
    } else {
        let shorter = digits.drop_last();
        lemma_number_value_grows(shorter, radix, prefix);
        assert(shorter.take(prefix) =~= digits.take(prefix));
        let high = number_value(shorter, radix);
        assert(high * radix >= high) by (nonlinear_arith)
            requires
                radix >= 1,
                high >= 0,
        ;
    }
}

} // verus!
