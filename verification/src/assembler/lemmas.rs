//! What holds of the syntax: each form of line, written out from register
//! references and literals, is assembled into the instruction that it
//! names, and that instruction is decoded into the same operation and
//! registers.

use vstd::prelude::*;
use crate::assembler::syntax::{
    assemble_line, digit_value, find, is_whitespace, lemma_find_first, literal, memory_reference,
    not_whitespace, occurs_at, register, split_once, strip_prefix, strip_whitespace,
};
use crate::instruction::{
    decode_word, lemma_decode_load_value_cut, lemma_decode_three_reg_cut, load_value_word,
    three_reg_word, Instruction, VALUE_MASK,
};
use crate::um::UmOperations;

verus! {

/// No character of `text` is `c`.
pub open spec fn lacks(text: Seq<char>, c: char) -> bool {
    forall|i: int| 0 <= i < text.len() ==> text[i] != c
}

/// The sign of an operation on two registers: `+`, `*`, `/` or `nand`.
pub open spec fn sign(op: UmOperations) -> Seq<char> {
    match op {
        UmOperations::ADD => seq!['+'],
        UmOperations::MUL => seq!['*'],
        UmOperations::DIV => seq!['/'],
        _ => seq!['n', 'a', 'n', 'd'],
    }
}

/// The mnemonic of an operation on one register: `unmap`, `out` or `in`.
pub open spec fn mnemonic(op: UmOperations) -> Seq<char> {
    match op {
        UmOperations::UNMAP => seq!['u', 'n', 'm', 'a', 'p'],
        UmOperations::OUT => seq!['o', 'u', 't'],
        _ => seq!['i', 'n'],
    }
}

/// The text `m[X][Y]` of the two register references `X` and `Y`.
pub open spec fn memory_text(segment: Seq<char>, offset: Seq<char>) -> Seq<char> {
    seq!['m', '['] + segment + seq![']', '['] + offset + seq![']']
}

/// The standard instruction of an operation and three register numbers, as
/// the machine decodes it: each number with its three low bits.
pub open spec fn standard(op: UmOperations, a: u32, b: u32, c: u32) -> Instruction {
    Instruction::Standard { op, a: (a & 7) as usize, b: (b & 7) as usize, c: (c & 7) as usize }
}

/// Whitespace is taken out of the parts of a line one by one.
pub proof fn lemma_strip_concat(first: Seq<char>, second: Seq<char>)
    ensures
        strip_whitespace(first + second) == strip_whitespace(first) + strip_whitespace(second),
{
    Seq::filter_distributes_over_add(first, second, not_whitespace());
}

/// A text without whitespace is left as it is.
pub proof fn lemma_strip_clean(text: Seq<char>)
    requires
        forall|i: int| 0 <= i < text.len() ==> !is_whitespace(#[trigger] text[i]),
    ensures
        strip_whitespace(text) == text,
    decreases text.len(),
{
    reveal(Seq::filter);
    if text.len() > 0 {
        lemma_strip_clean(text.drop_last());
    }
}

/// A text of whitespace only is taken out whole.
pub proof fn lemma_strip_blank(text: Seq<char>)
    requires
        forall|i: int| 0 <= i < text.len() ==> is_whitespace(#[trigger] text[i]),
    ensures
        strip_whitespace(text) == Seq::<char>::empty(),
    decreases text.len(),
{
    reveal(Seq::filter);
    if text.len() > 0 {
        lemma_strip_blank(text.drop_last());
    }
}

/// A pattern that stands at an index and at none before it is found there.
pub proof fn lemma_find_some(text: Seq<char>, pattern: Seq<char>, at: int)
    requires
        occurs_at(text, pattern, at),
        forall|earlier: int| 0 <= earlier < at ==> !occurs_at(text, pattern, earlier),
    ensures
        find(text, pattern) == Some(at),
{
    lemma_find_first(text, pattern);
}

/// A pattern whose first character a text lacks is not found in it.
pub proof fn lemma_find_none(text: Seq<char>, pattern: Seq<char>)
    requires
        pattern.len() > 0,
        lacks(text, pattern[0]),
    ensures
        find(text, pattern) is None,
        split_once(text, pattern) is None,
{
    lemma_find_first(text, pattern);
}

/// A text is split at a pattern into what stands before and after it, where
/// what stands before it lacks the pattern's first character.
pub proof fn lemma_split_once(before: Seq<char>, pattern: Seq<char>, after: Seq<char>)
    requires
        pattern.len() > 0,
        lacks(before, pattern[0]),
    ensures
        split_once(before + pattern + after, pattern) == Some((before, after)),
{
    let text = before + pattern + after;
    let at = before.len() as int;
    assert(text.subrange(at, at + pattern.len()) =~= pattern);
    lemma_find_some(text, pattern, at);
}

/// What follows a prefix is what is left when the prefix is taken off.
pub proof fn lemma_strip_prefix(pattern: Seq<char>, rest: Seq<char>)
    ensures
        occurs_at(pattern + rest, pattern, 0),
        strip_prefix(pattern + rest, pattern) == Some(rest),
{
    let text = pattern + rest;
    assert(text.subrange(0, pattern.len() as int) =~= pattern);
}

/// A text that differs from a pattern at some index of the pattern, or ends
/// at or before that index, does not begin with the pattern.
pub proof fn lemma_no_prefix(text: Seq<char>, pattern: Seq<char>, at: int)
    requires
        0 <= at < pattern.len(),
        at < text.len() ==> text[at] != pattern[at],
    ensures
        !occurs_at(text, pattern, 0),
        strip_prefix(text, pattern) is None,
{
}

/// A register reference is the letter `r` and decimal digits, one at least.
pub proof fn lemma_register_text(text: Seq<char>)
    requires
        register(text) is Some,
    ensures
        text.len() >= 2,
        text[0] == 'r',
        forall|i: int| 1 <= i < text.len() ==> '0' <= #[trigger] text[i] <= '9',
{
    let digits = text.subrange(1, text.len() as int);
    assert(text.subrange(0, 1)[0] == seq!['r'][0]);
    assert forall|i: int| 1 <= i < text.len() implies '0' <= #[trigger] text[i] <= '9' by {
        assert(digit_value(digits[i - 1], 10) is Some);
    }
}

/// A literal begins with a decimal digit and holds nothing but digits and
/// letters.
pub proof fn lemma_literal_text(text: Seq<char>)
    requires
        literal(text) is Some,
    ensures
        text.len() >= 1,
        '0' <= text[0] <= '9',
        forall|i: int|
            0 <= i < text.len() ==> {
                let c = #[trigger] text[i];
                ('0' <= c <= '9') || ('a' <= c <= 'z') || ('A' <= c <= 'Z')
            },
{
    let len = text.len() as int;
    if strip_prefix(text, seq!['0', 'x']) is Some {
        let digits = text.subrange(2, len);
        assert forall|i: int| 2 <= i < len implies digit_value(#[trigger] text[i], 16) is Some by {
            assert(digit_value(digits[i - 2], 16) is Some);
        }
    } else if strip_prefix(text, seq!['0', 'b']) is Some {
        let digits = text.subrange(2, len);
        assert forall|i: int| 2 <= i < len implies digit_value(#[trigger] text[i], 2) is Some by {
            assert(digit_value(digits[i - 2], 2) is Some);
        }
    }
}

/// A memory reference is read back from its text.
pub proof fn lemma_memory_text(segment: Seq<char>, offset: Seq<char>)
    requires
        register(segment) is Some,
        register(offset) is Some,
    ensures
        occurs_at(memory_text(segment, offset), seq!['m', '['], 0),
        memory_reference(memory_text(segment, offset)) == Some(
            (register(segment)->0, register(offset)->0),
        ),
        lacks(memory_text(segment, offset), ':'),
        lacks(memory_text(segment, offset), '+'),
        lacks(memory_text(segment, offset), '*'),
        lacks(memory_text(segment, offset), '/'),
        lacks(memory_text(segment, offset), 'n'),
{
    let text = memory_text(segment, offset);
    let inner = segment + seq![']', '['] + offset;
    lemma_register_text(segment);
    lemma_register_text(offset);
    assert(text =~= seq!['m', '['] + (inner + seq![']']));
    lemma_strip_prefix(seq!['m', '['], inner + seq![']']);
    assert(text.subrange(2, text.len() - 1) =~= inner);
    lemma_split_once(segment, seq![']', '['], offset);
}

/// The line `A := B sign C`, with the sign `+`, `*`, `/` or `nand`, is the
/// operation of that sign on the three registers, whatever whitespace the
/// line holds.
pub proof fn lemma_binary_line(
    line: Seq<char>,
    op: UmOperations,
    ta: Seq<char>,
    tb: Seq<char>,
    tc: Seq<char>,
)
    requires
        op == UmOperations::ADD || op == UmOperations::MUL || op == UmOperations::DIV || op
            == UmOperations::NAND,
        register(ta) is Some,
        register(tb) is Some,
        register(tc) is Some,
        strip_whitespace(line) == ta + seq![':', '='] + (tb + sign(op) + tc),
    ensures
        assemble_line(line) == Some(
            three_reg_word(op.spec_code(), register(ta)->0, register(tb)->0, register(tc)->0),
        ),
        decode_word(assemble_line(line)->0) == Some(
            standard(op, register(ta)->0, register(tb)->0, register(tc)->0),
        ),
{
    let right = tb + sign(op) + tc;
    lemma_register_text(ta);
    lemma_register_text(tb);
    lemma_register_text(tc);
    lemma_split_once(ta, seq![':', '='], right);
    lemma_no_prefix(ta, seq!['m', '['], 0);
    lemma_split_once(tb, sign(op), tc);
    if op != UmOperations::ADD {
        lemma_find_none(right, seq!['+']);
    }
    if op == UmOperations::DIV || op == UmOperations::NAND {
        lemma_find_none(right, seq!['*']);
    }
    if op == UmOperations::NAND {
        lemma_find_none(right, seq!['/']);
    }
    lemma_decode_three_reg_cut(op, register(ta)->0, register(tb)->0, register(tc)->0);
}

/// The line `A := m[B][C]` is the load from a segment.
pub proof fn lemma_load_line(line: Seq<char>, ta: Seq<char>, tb: Seq<char>, tc: Seq<char>)
    requires
        register(ta) is Some,
        register(tb) is Some,
        register(tc) is Some,
        strip_whitespace(line) == ta + seq![':', '='] + memory_text(tb, tc),
    ensures
        assemble_line(line) == Some(
            three_reg_word(
                UmOperations::SLOAD.spec_code(),
                register(ta)->0,
                register(tb)->0,
                register(tc)->0,
            ),
        ),
        decode_word(assemble_line(line)->0) == Some(
            standard(UmOperations::SLOAD, register(ta)->0, register(tb)->0, register(tc)->0),
        ),
{
    let right = memory_text(tb, tc);
    lemma_register_text(ta);
    lemma_memory_text(tb, tc);
    lemma_split_once(ta, seq![':', '='], right);
    lemma_no_prefix(ta, seq!['m', '['], 0);
    lemma_find_none(right, seq!['+']);
    lemma_find_none(right, seq!['*']);
    lemma_find_none(right, seq!['/']);
    lemma_find_none(right, seq!['n', 'a', 'n', 'd']);
    lemma_decode_three_reg_cut(
        UmOperations::SLOAD,
        register(ta)->0,
        register(tb)->0,
        register(tc)->0,
    );
}

/// The line `m[A][B] := C` is the store into a segment.
pub proof fn lemma_store_line(line: Seq<char>, ta: Seq<char>, tb: Seq<char>, tc: Seq<char>)
    requires
        register(ta) is Some,
        register(tb) is Some,
        register(tc) is Some,
        strip_whitespace(line) == memory_text(ta, tb) + seq![':', '='] + tc,
    ensures
        assemble_line(line) == Some(
            three_reg_word(
                UmOperations::SSTORE.spec_code(),
                register(ta)->0,
                register(tb)->0,
                register(tc)->0,
            ),
        ),
        decode_word(assemble_line(line)->0) == Some(
            standard(UmOperations::SSTORE, register(ta)->0, register(tb)->0, register(tc)->0),
        ),
{
    let left = memory_text(ta, tb);
    lemma_memory_text(ta, tb);
    lemma_split_once(left, seq![':', '='], tc);
    lemma_decode_three_reg_cut(
        UmOperations::SSTORE,
        register(ta)->0,
        register(tb)->0,
        register(tc)->0,
    );
}

/// The line `A := B if C` is the conditional move.
pub proof fn lemma_move_line(line: Seq<char>, ta: Seq<char>, tb: Seq<char>, tc: Seq<char>)
    requires
        register(ta) is Some,
        register(tb) is Some,
        register(tc) is Some,
        strip_whitespace(line) == ta + seq![':', '='] + (tb + seq!['i', 'f'] + tc),
    ensures
        assemble_line(line) == Some(
            three_reg_word(
                UmOperations::CMOV.spec_code(),
                register(ta)->0,
                register(tb)->0,
                register(tc)->0,
            ),
        ),
        decode_word(assemble_line(line)->0) == Some(
            standard(UmOperations::CMOV, register(ta)->0, register(tb)->0, register(tc)->0),
        ),
{
    let right = tb + seq!['i', 'f'] + tc;
    lemma_register_text(ta);
    lemma_register_text(tb);
    lemma_register_text(tc);
    lemma_split_once(ta, seq![':', '='], right);
    lemma_no_prefix(ta, seq!['m', '['], 0);
    lemma_find_none(right, seq!['+']);
    lemma_find_none(right, seq!['*']);
    lemma_find_none(right, seq!['/']);
    lemma_find_none(right, seq!['n', 'a', 'n', 'd']);
    lemma_no_prefix(right, seq!['m', '['], 0);
    lemma_split_once(tb, seq!['i', 'f'], tc);
    lemma_decode_three_reg_cut(
        UmOperations::CMOV,
        register(ta)->0,
        register(tb)->0,
        register(tc)->0,
    );
}

/// The line `B := map C` is the map, with its register A zero.
pub proof fn lemma_map_line(line: Seq<char>, tb: Seq<char>, tc: Seq<char>)
    requires
        register(tb) is Some,
        register(tc) is Some,
        strip_whitespace(line) == tb + seq![':', '='] + (seq!['m', 'a', 'p'] + tc),
    ensures
        assemble_line(line) == Some(
            three_reg_word(UmOperations::MAP.spec_code(), 0, register(tb)->0, register(tc)->0),
        ),
        decode_word(assemble_line(line)->0) == Some(
            standard(UmOperations::MAP, 0, register(tb)->0, register(tc)->0),
        ),
{
    let right = seq!['m', 'a', 'p'] + tc;
    lemma_register_text(tb);
    lemma_register_text(tc);
    lemma_split_once(tb, seq![':', '='], right);
    lemma_no_prefix(tb, seq!['m', '['], 0);
    lemma_find_none(right, seq!['+']);
    lemma_find_none(right, seq!['*']);
    lemma_find_none(right, seq!['/']);
    lemma_find_none(right, seq!['n', 'a', 'n', 'd']);
    lemma_no_prefix(right, seq!['m', '['], 1);
    lemma_find_none(right, seq!['i', 'f']);
    lemma_strip_prefix(seq!['m', 'a', 'p'], tc);
    lemma_decode_three_reg_cut(UmOperations::MAP, 0, register(tb)->0, register(tc)->0);
}

/// The line `A := literal` is the load of the literal's 25 low bits.
pub proof fn lemma_value_line(line: Seq<char>, ta: Seq<char>, tv: Seq<char>)
    requires
        register(ta) is Some,
        literal(tv) is Some,
        strip_whitespace(line) == ta + seq![':', '='] + tv,
    ensures
        assemble_line(line) == Some(
            load_value_word(UmOperations::LV.spec_code(), register(ta)->0, literal(tv)->0),
        ),
        decode_word(assemble_line(line)->0) == Some(
            Instruction::LoadValue {
                a: (register(ta)->0 & 7) as usize,
                value: literal(tv)->0 & VALUE_MASK,
            },
        ),
{
    lemma_register_text(ta);
    lemma_literal_text(tv);
    lemma_split_once(ta, seq![':', '='], tv);
    lemma_no_prefix(ta, seq!['m', '['], 0);
    lemma_find_none(tv, seq!['+']);
    lemma_find_none(tv, seq!['*']);
    lemma_find_none(tv, seq!['/']);
    lemma_no_prefix(tv, seq!['m', '['], 0);
    lemma_no_prefix(tv, seq!['m', 'a', 'p'], 0);
    lemma_split_none_in_literal(tv);
    lemma_decode_load_value_cut(register(ta)->0, literal(tv)->0);
}

/// A literal holds neither `nand` nor `if`.
proof fn lemma_split_none_in_literal(tv: Seq<char>)
    requires
        literal(tv) is Some,
    ensures
        split_once(tv, seq!['n', 'a', 'n', 'd']) is None,
        split_once(tv, seq!['i', 'f']) is None,
{
    let len = tv.len() as int;
    if strip_prefix(tv, seq!['0', 'x']) is Some {
        let digits = tv.subrange(2, len);
        assert forall|i: int| 0 <= i < len implies tv[i] != 'n' && tv[i] != 'i' by {
            if i >= 2 {
                assert(digit_value(digits[i - 2], 16) is Some);
            }
        }
    } else if strip_prefix(tv, seq!['0', 'b']) is Some {
        let digits = tv.subrange(2, len);
        assert forall|i: int| 0 <= i < len implies tv[i] != 'n' && tv[i] != 'i' by {
            if i >= 2 {
                assert(digit_value(digits[i - 2], 2) is Some);
            }
        }
    }
    lemma_find_none(tv, seq!['n', 'a', 'n', 'd']);
    lemma_find_none(tv, seq!['i', 'f']);
}

/// The line `mnemonic C`, with the mnemonic `unmap`, `out` or `in`, is the
/// operation of that mnemonic on register C, with its registers A and B
/// zero.
pub proof fn lemma_unary_line(line: Seq<char>, op: UmOperations, tc: Seq<char>)
    requires
        op == UmOperations::UNMAP || op == UmOperations::OUT || op == UmOperations::IN,
        register(tc) is Some,
        strip_whitespace(line) == mnemonic(op) + tc,
    ensures
        assemble_line(line) == Some(three_reg_word(op.spec_code(), 0, 0, register(tc)->0)),
        decode_word(assemble_line(line)->0) == Some(standard(op, 0, 0, register(tc)->0)),
{
    let text = mnemonic(op) + tc;
    lemma_register_text(tc);
    lemma_find_none(text, seq![':', '=']);
    lemma_strip_prefix(mnemonic(op), tc);
    if op != UmOperations::UNMAP {
        lemma_no_prefix(text, seq!['u', 'n', 'm', 'a', 'p'], 0);
    }
    if op == UmOperations::IN {
        lemma_no_prefix(text, seq!['o', 'u', 't'], 0);
    }
    lemma_decode_three_reg_cut(op, 0, 0, register(tc)->0);
}

/// The line `goto m[B][C]` is the load of the program, with its register A
/// zero.
pub proof fn lemma_goto_line(line: Seq<char>, tb: Seq<char>, tc: Seq<char>)
    requires
        register(tb) is Some,
        register(tc) is Some,
        strip_whitespace(line) == seq!['g', 'o', 't', 'o'] + memory_text(tb, tc),
    ensures
        assemble_line(line) == Some(
            three_reg_word(UmOperations::LOADP.spec_code(), 0, register(tb)->0, register(tc)->0),
        ),
        decode_word(assemble_line(line)->0) == Some(
            standard(UmOperations::LOADP, 0, register(tb)->0, register(tc)->0),
        ),
{
    let text = seq!['g', 'o', 't', 'o'] + memory_text(tb, tc);
    lemma_memory_text(tb, tc);
    lemma_find_none(text, seq![':', '=']);
    lemma_no_prefix(text, seq!['u', 'n', 'm', 'a', 'p'], 0);
    lemma_no_prefix(text, seq!['o', 'u', 't'], 0);
    lemma_no_prefix(text, seq!['i', 'n'], 0);
    lemma_strip_prefix(seq!['g', 'o', 't', 'o'], memory_text(tb, tc));
    lemma_decode_three_reg_cut(UmOperations::LOADP, 0, register(tb)->0, register(tc)->0);
}

/// The line `halt` is the halt, with its three registers zero.
pub proof fn lemma_halt_line(line: Seq<char>)
    requires
        strip_whitespace(line) == seq!['h', 'a', 'l', 't'],
    ensures
        assemble_line(line) == Some(three_reg_word(UmOperations::HALT.spec_code(), 0, 0, 0)),
        decode_word(assemble_line(line)->0) == Some(standard(UmOperations::HALT, 0, 0, 0)),
{
    let text = seq!['h', 'a', 'l', 't'];
    lemma_find_none(text, seq![':', '=']);
    lemma_no_prefix(text, seq!['u', 'n', 'm', 'a', 'p'], 0);
    lemma_no_prefix(text, seq!['o', 'u', 't'], 0);
    lemma_no_prefix(text, seq!['i', 'n'], 0);
    lemma_no_prefix(text, seq!['g', 'o', 't', 'o'], 0);
    lemma_decode_three_reg_cut(UmOperations::HALT, 0, 0, 0);
}

/// A line without a character that is no whitespace is no instruction.
pub proof fn lemma_blank_line(line: Seq<char>)
    requires
        forall|i: int| 0 <= i < line.len() ==> is_whitespace(#[trigger] line[i]),
    ensures
        assemble_line(line) is None,
{
    lemma_strip_blank(line);
    let text = Seq::<char>::empty();
    lemma_find_none(text, seq![':', '=']);
    lemma_no_prefix(text, seq!['u', 'n', 'm', 'a', 'p'], 0);
    lemma_no_prefix(text, seq!['o', 'u', 't'], 0);
    lemma_no_prefix(text, seq!['i', 'n'], 0);
    lemma_no_prefix(text, seq!['g', 'o', 't', 'o'], 0);
}

} // verus!
