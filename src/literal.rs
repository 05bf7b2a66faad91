//! Literal constants: booleans, integers in three bases, floating-point and
//! fixed-point decimals, characters and (implicitly concatenated) strings.
use vstd::prelude::*;
use vstd::string::StringExecFns;
use crate::scan::{
    char_is, chars_of, digits_value, has, is_digit_in, is_ident_start, is_space, lemma_digits_value_shift,
    lemma_quote_end_skip, lemma_space_end_skip,
    lemma_quote_end_bounds, lemma_run_end_bounds, lemma_run_end_stops, lemma_run_end_to_end,
    lemma_space_end_bounds, quote_end, read_digits, run_end, scan_digits, scan_space, scan_to_quote,
    space_end, string_of, word_at, word_is,
};

verus! {

/// A literal value.
///
/// A floating-point literal keeps its decimal text (integer digits, the point,
/// fraction digits, exactly as written); reading it as a binary float is left to
/// the consumer. A fixed-point literal keeps the raw values of its two digit runs,
/// so `.3d` and `.30d` differ.
#[derive(Debug, Clone, PartialEq)]
pub enum Literal {
    Bool(bool),
    Character(char),
    FixedPoint(u64, u64),
    FloatingPoint(String),
    Integer(u64),
    Str(String),
}

/// The mathematical value of a [`Literal`].
pub enum LiteralModel {
    Bool(bool),
    Character(char),
    FixedPoint(u64, u64),
    FloatingPoint(Seq<char>),
    Integer(u64),
    Str(Seq<char>),
}

impl View for Literal {
    type V = LiteralModel;

    open spec fn view(&self) -> LiteralModel {
        match self {
            Literal::Bool(b) => LiteralModel::Bool(*b),
            Literal::Character(c) => LiteralModel::Character(*c),
            Literal::FixedPoint(i, f) => LiteralModel::FixedPoint(*i, *f),
            Literal::FloatingPoint(t) => LiteralModel::FloatingPoint(t@),
            Literal::Integer(v) => LiteralModel::Integer(*v),
            Literal::Str(t) => LiteralModel::Str(t@),
        }
    }
}

/// Why a recognizer did not produce a value. Positions count characters.
#[derive(Debug, Clone, Copy, PartialEq, Eq)]
pub enum LexError {
    /// The text at the cursor does not have the recognizer's shape.
    NoMatch,
    /// A literal of the right shape whose value does not fit in 64 bits; it spans
    /// `start..end`.
    NumericOverflow { start: usize, end: usize },
    /// A quote at `start` that is not followed by exactly one Latin-1 character and
    /// a closing quote.
    MalformedCharacter { start: usize },
    /// A double quote at `start` with no closing double quote after it.
    UnterminatedString { start: usize },
}

/// What a recognizer returns, in the mathematical model: the value and the
/// position just past it, or an error.
pub type Lexed = Result<(LiteralModel, int), LexError>;

/// A recognizer's outcome in the mathematical model.
pub open spec fn lexed_view(r: Result<(Literal, usize), LexError>) -> Lexed {
    match r {
        Ok((l, e)) => Ok((l@, e as int)),
        Err(x) => Err(x),
    }
}

/// Ordered choice: `a` unless it did not match at all, then `b`. A recognizer that
/// matched its shape but failed (an overflow, say) is final.
pub open spec fn first_of(a: Lexed, b: Lexed) -> Lexed {
    if a == Err::<(LiteralModel, int), LexError>(LexError::NoMatch) {
        b
    } else {
        a
    }
}

/// An integer literal spanning `start..b` whose digits are `s[a..b]`.
pub open spec fn integer_of(s: Seq<char>, start: int, a: int, b: int, radix: nat) -> Lexed {
    let v = digits_value(s, a, b, radix);
    if v <= u64::MAX {
        Ok((LiteralModel::Integer(v as u64), b))
    } else {
        Err(LexError::NumericOverflow { start: start as usize, end: b as usize })
    }
}

/// `TRUE` as a whole word.
pub open spec fn spec_true(s: Seq<char>, p: int) -> Lexed {
    if word_at(s, p, seq!['T', 'R', 'U', 'E']) {
        Ok((LiteralModel::Bool(true), p + 4))
    } else {
        Err(LexError::NoMatch)
    }
}

/// `FALSE` as a whole word.
pub open spec fn spec_false(s: Seq<char>, p: int) -> Lexed {
    if word_at(s, p, seq!['F', 'A', 'L', 'S', 'E']) {
        Ok((LiteralModel::Bool(false), p + 5))
    } else {
        Err(LexError::NoMatch)
    }
}

/// `TRUE`, then `FALSE`.
pub open spec fn spec_bool(s: Seq<char>, p: int) -> Lexed {
    first_of(spec_true(s, p), spec_false(s, p))
}

/// `0x` or `0X`, then one or more hex digits (the longest such run).
pub open spec fn spec_hex(s: Seq<char>, p: int) -> Lexed {
    let e = run_end(s, p + 2, 16);
    if has(s, p, '0') && (has(s, p + 1, 'x') || has(s, p + 1, 'X')) && e > p + 2 {
        integer_of(s, p, p + 2, e, 16)
    } else {
        Err(LexError::NoMatch)
    }
}

/// `0`, then a run of decimal digits that is not empty and holds no `8` or `9`.
pub open spec fn spec_oct(s: Seq<char>, p: int) -> Lexed {
    let e = run_end(s, p + 1, 10);
    if has(s, p, '0') && e > p + 1 && run_end(s, p + 1, 8) == e {
        integer_of(s, p, p + 1, e, 8)
    } else {
        Err(LexError::NoMatch)
    }
}

/// One or more decimal digits (the longest such run).
pub open spec fn spec_dec(s: Seq<char>, p: int) -> Lexed {
    let e = run_end(s, p, 10);
    if e > p {
        integer_of(s, p, p, e, 10)
    } else {
        Err(LexError::NoMatch)
    }
}

/// Hex first, then octal, then decimal.
pub open spec fn spec_int(s: Seq<char>, p: int) -> Lexed {
    first_of(spec_hex(s, p), first_of(spec_oct(s, p), spec_dec(s, p)))
}

/// Integer digits, a point, fraction digits; either run may be empty, not both.
pub open spec fn spec_float(s: Seq<char>, p: int) -> Lexed {
    let i = run_end(s, p, 10);
    let f = run_end(s, i + 1, 10);
    if has(s, i, '.') && (i > p || f > i + 1) {
        Ok((LiteralModel::FloatingPoint(s.subrange(p, f)), f))
    } else {
        Err(LexError::NoMatch)
    }
}

/// The fixed-point suffix `d` or `D` stands at `p`.
pub open spec fn is_d(s: Seq<char>, p: int) -> bool {
    has(s, p, 'd') || has(s, p, 'D')
}

/// A fixed-point literal spanning `p..end` with integer digits `s[p..i]` and
/// fraction digits `s[a..f]`.
pub open spec fn fixed_of(s: Seq<char>, p: int, i: int, a: int, f: int, end: int) -> Lexed {
    let iv = digits_value(s, p, i, 10);
    let fv = digits_value(s, a, f, 10);
    if iv <= u64::MAX && fv <= u64::MAX {
        Ok((LiteralModel::FixedPoint(iv as u64, fv as u64), end))
    } else {
        Err(LexError::NumericOverflow { start: p as usize, end: end as usize })
    }
}

/// As a floating-point literal, then `d` or `D`; without a fraction the point may
/// be left out.
pub open spec fn spec_fixed(s: Seq<char>, p: int) -> Lexed {
    let i = run_end(s, p, 10);
    let f = run_end(s, i + 1, 10);
    if has(s, i, '.') {
        if (i > p || f > i + 1) && is_d(s, f) {
            fixed_of(s, p, i, i + 1, f, f + 1)
        } else {
            Err(LexError::NoMatch)
        }
    } else if i > p && is_d(s, i) {
        fixed_of(s, p, i, i, i, i + 1)
    } else {
        Err(LexError::NoMatch)
    }
}

/// A character of the 8-bit ISO 8859-1 range.
pub open spec fn is_latin1(c: char) -> bool {
    (c as u32) <= 0xFF
}

/// One Latin-1 character between single quotes.
pub open spec fn spec_char(s: Seq<char>, p: int) -> Lexed {
    if has(s, p, '\'') {
        if has(s, p + 2, '\'') && is_latin1(s[p + 1]) {
            Ok((LiteralModel::Character(s[p + 1]), p + 3))
        } else {
            Err(LexError::MalformedCharacter { start: p as usize })
        }
    } else {
        Err(LexError::NoMatch)
    }
}

/// The quoted segments from the one that opens at `p`, each followed by white
/// space: their contents joined, and the position after the last one's white space.
pub open spec fn segments(s: Seq<char>, p: int) -> Result<(Seq<char>, int), LexError>
    decreases s.len() - p
    via segments_decreases
{
    if 0 <= p < s.len() && s[p] == '"' {
        let q = quote_end(s, p + 1);
        if q >= s.len() {
            Err(LexError::UnterminatedString { start: p as usize })
        } else {
            let w = space_end(s, q + 1);
            if has(s, w, '"') {
                match segments(s, w) {
                    Ok((rest, e)) => Ok((s.subrange(p + 1, q) + rest, e)),
                    Err(x) => Err(x),
                }
            } else {
                Ok((s.subrange(p + 1, q), w))
            }
        }
    } else {
        Err(LexError::NoMatch)
    }
}

/// Each further segment opens after the previous one closes.
#[via_fn]
proof fn segments_decreases(s: Seq<char>, p: int) {
    if 0 <= p < s.len() && s[p] == '"' {
        lemma_quote_end_bounds(s, p + 1);
        let q = quote_end(s, p + 1);
        if q < s.len() {
            lemma_space_end_bounds(s, q + 1);
        }
    }
}

/// One or more double-quoted runs of characters other than the double quote,
/// separated by white space, joined into one string with nothing between.
pub open spec fn spec_string(s: Seq<char>, p: int) -> Lexed {
    match segments(s, p) {
        Ok((t, e)) => Ok((LiteralModel::Str(t), e)),
        Err(x) => Err(x),
    }
}

/// Any literal: boolean, fixed-point, floating-point, integer, character, string,
/// in that order.
pub open spec fn spec_literal(s: Seq<char>, p: int) -> Lexed {
    first_of(
        spec_bool(s, p),
        first_of(
            spec_fixed(s, p),
            first_of(
                spec_float(s, p),
                first_of(spec_int(s, p), first_of(spec_char(s, p), spec_string(s, p))),
            ),
        ),
    )
}

/// The integer whose digits are `input[a..b]`, for a literal that opens at `start`.
fn integer_at(input: &[char], start: usize, a: usize, b: usize, radix: u32) -> (r: Result<
    (Literal, usize),
    LexError,
>)
    requires
        a <= b <= input@.len(),
        radix == 8 || radix == 10 || radix == 16,
        forall|i: int| a <= i < b ==> is_digit_in(#[trigger] input@[i], radix as nat),
    ensures
        lexed_view(r) == integer_of(input@, start as int, a as int, b as int, radix as nat),
{
    match read_digits(input, a, b, radix) {
        Some(v) => Ok((Literal::Integer(v), b)),
        None => Err(LexError::NumericOverflow { start, end: b }),
    }
}

/// Recognizes `TRUE` at `pos`.
fn true_at(input: &[char], pos: usize) -> (r: Result<(Literal, usize), LexError>)
    ensures
        lexed_view(r) == spec_true(input@, pos as int),
{
    let n = input.len();
    proof {
        reveal_strlit("TRUE");
        assert("TRUE"@ =~= seq!['T', 'R', 'U', 'E']);
    }
    if pos <= n && word_is(input, pos, "TRUE") {
        Ok((Literal::Bool(true), pos + 4))
    } else {
        Err(LexError::NoMatch)
    }
}

/// Recognizes `FALSE` at `pos`.
fn false_at(input: &[char], pos: usize) -> (r: Result<(Literal, usize), LexError>)
    ensures
        lexed_view(r) == spec_false(input@, pos as int),
{
    let n = input.len();
    proof {
        reveal_strlit("FALSE");
        assert("FALSE"@ =~= seq!['F', 'A', 'L', 'S', 'E']);
    }
    if pos <= n && word_is(input, pos, "FALSE") {
        Ok((Literal::Bool(false), pos + 5))
    } else {
        Err(LexError::NoMatch)
    }
}

/// Recognizes a boolean literal at `pos`.
fn bool_at(input: &[char], pos: usize) -> (r: Result<(Literal, usize), LexError>)
    ensures
        lexed_view(r) == spec_bool(input@, pos as int),
{
    match true_at(input, pos) {
        Err(LexError::NoMatch) => false_at(input, pos),
        r => r,
    }
}

/// Recognizes a hexadecimal integer at `pos`.
fn hex_at(input: &[char], pos: usize) -> (r: Result<(Literal, usize), LexError>)
    ensures
        lexed_view(r) == spec_hex(input@, pos as int),
{
    let n = input.len();
    if char_is(input, pos, '0') && pos + 1 < n && (char_is(input, pos + 1, 'x') || char_is(
        input,
        pos + 1,
        'X',
    )) {
        let e = scan_digits(input, pos + 2, 16);
        if e > pos + 2 {
            proof { lemma_run_end_bounds(input@, pos + 2, 16); }
            return integer_at(input, pos, pos + 2, e, 16);
        }
    }
    Err(LexError::NoMatch)
}

/// Recognizes an octal integer at `pos`.
fn oct_at(input: &[char], pos: usize) -> (r: Result<(Literal, usize), LexError>)
    ensures
        lexed_view(r) == spec_oct(input@, pos as int),
{
    if pos < input.len() && char_is(input, pos, '0') {
        let e = scan_digits(input, pos + 1, 10);
        let e8 = scan_digits(input, pos + 1, 8);
        if e > pos + 1 && e8 == e {
            proof { lemma_run_end_bounds(input@, pos + 1, 8); }
            return integer_at(input, pos, pos + 1, e, 8);
        }
    }
    Err(LexError::NoMatch)
}

/// Recognizes a decimal integer at `pos`.
fn dec_at(input: &[char], pos: usize) -> (r: Result<(Literal, usize), LexError>)
    ensures
        lexed_view(r) == spec_dec(input@, pos as int),
{
    let n = input.len();
    if pos <= n {
        let e = scan_digits(input, pos, 10);
        if e > pos {
            proof { lemma_run_end_bounds(input@, pos as int, 10); }
            return integer_at(input, pos, pos, e, 10);
        }
    }
    Err(LexError::NoMatch)
}

/// Recognizes an integer of any base at `pos`.
fn int_at(input: &[char], pos: usize) -> (r: Result<(Literal, usize), LexError>)
    ensures
        lexed_view(r) == spec_int(input@, pos as int),
{
    match hex_at(input, pos) {
        Err(LexError::NoMatch) => match oct_at(input, pos) {
            Err(LexError::NoMatch) => dec_at(input, pos),
            r => r,
        },
        r => r,
    }
}

/// Recognizes a floating-point literal at `pos`.
fn float_at(input: &[char], pos: usize) -> (r: Result<(Literal, usize), LexError>)
    ensures
        lexed_view(r) == spec_float(input@, pos as int),
{
    let n = input.len();
    if pos > n {
        return Err(LexError::NoMatch);
    }
    let i = scan_digits(input, pos, 10);
    if char_is(input, i, '.') {
        let f = scan_digits(input, i + 1, 10);
        if i > pos || f > i + 1 {
            let text = string_of(input, pos, f);
            return Ok((Literal::FloatingPoint(text), f));
        }
    }
    Err(LexError::NoMatch)
}

/// The fixed-point literal with integer digits `input[p..i]` and fraction digits
/// `input[a..f]`, ending at `end`.
fn fixed_value(input: &[char], p: usize, i: usize, a: usize, f: usize, end: usize) -> (r:
    Result<(Literal, usize), LexError>)
    requires
        p <= i <= input@.len(),
        a <= f <= input@.len(),
        forall|k: int| p <= k < i ==> is_digit_in(#[trigger] input@[k], 10),
        forall|k: int| a <= k < f ==> is_digit_in(#[trigger] input@[k], 10),
    ensures
        lexed_view(r) == fixed_of(input@, p as int, i as int, a as int, f as int, end as int),
{
    match (read_digits(input, p, i, 10), read_digits(input, a, f, 10)) {
        (Some(iv), Some(fv)) => Ok((Literal::FixedPoint(iv, fv), end)),
        _ => Err(LexError::NumericOverflow { start: p, end }),
    }
}

/// Recognizes a fixed-point literal at `pos`.
fn fixed_at(input: &[char], pos: usize) -> (r: Result<(Literal, usize), LexError>)
    ensures
        lexed_view(r) == spec_fixed(input@, pos as int),
{
    let n = input.len();
    if pos > n {
        return Err(LexError::NoMatch);
    }
    let i = scan_digits(input, pos, 10);
    proof { lemma_run_end_bounds(input@, pos as int, 10); }
    if char_is(input, i, '.') {
        let f = scan_digits(input, i + 1, 10);
        proof { lemma_run_end_bounds(input@, i + 1, 10); }
        if (i > pos || f > i + 1) && (char_is(input, f, 'd') || char_is(input, f, 'D')) {
            fixed_value(input, pos, i, i + 1, f, f + 1)
        } else {
            Err(LexError::NoMatch)
        }
    } else if i > pos && (char_is(input, i, 'd') || char_is(input, i, 'D')) {
        fixed_value(input, pos, i, i, i, i + 1)
    } else {
        Err(LexError::NoMatch)
    }
}

/// Recognizes a character literal at `pos`.
fn char_at(input: &[char], pos: usize) -> (r: Result<(Literal, usize), LexError>)
    ensures
        lexed_view(r) == spec_char(input@, pos as int),
{
    let n = input.len();
    if !char_is(input, pos, '\'') {
        return Err(LexError::NoMatch);
    }
    if n - pos > 2 && char_is(input, pos + 2, '\'') {
        let c = input[pos + 1];
        if (c as u32) <= 0xFF {
            return Ok((Literal::Character(c), pos + 3));
        }
    }
    Err(LexError::MalformedCharacter { start: pos })
}

/// Reads the adjacent string segments from the one that opens at `p`.
fn segments_at(input: &[char], p: usize) -> (r: Result<(String, usize), LexError>)
    requires
        p < input@.len(),
        input@[p as int] == '"',
    ensures
        segments(input@, p as int) == match r {
            Ok((t, e)) => Ok((t@, e as int)),
            Err(x) => Err(x),
        },
    decreases input@.len() - p,
{
    let n = input.len();
    let q = scan_to_quote(input, p + 1);
    if q >= n {
        return Err(LexError::UnterminatedString { start: p });
    }
    let w = scan_space(input, q + 1);
    let mut t = string_of(input, p + 1, q);
    if char_is(input, w, '"') {
        match segments_at(input, w) {
            Ok((rest, e)) => {
                t.append(rest.as_str());
                Ok((t, e))
            },
            Err(x) => Err(x),
        }
    } else {
        Ok((t, w))
    }
}

/// Recognizes a string literal at `pos`.
fn string_at(input: &[char], pos: usize) -> (r: Result<(Literal, usize), LexError>)
    ensures
        lexed_view(r) == spec_string(input@, pos as int),
{
    if !char_is(input, pos, '"') {
        return Err(LexError::NoMatch);
    }
    match segments_at(input, pos) {
        Ok((t, e)) => Ok((Literal::Str(t), e)),
        Err(x) => Err(x),
    }
}

/// Recognizes any literal at `pos`.
fn literal_at(input: &[char], pos: usize) -> (r: Result<(Literal, usize), LexError>)
    ensures
        lexed_view(r) == spec_literal(input@, pos as int),
{
    match bool_at(input, pos) {
        Err(LexError::NoMatch) => {},
        r => return r,
    }
    match fixed_at(input, pos) {
        Err(LexError::NoMatch) => {},
        r => return r,
    }
    match float_at(input, pos) {
        Err(LexError::NoMatch) => {},
        r => return r,
    }
    match int_at(input, pos) {
        Err(LexError::NoMatch) => {},
        r => return r,
    }
    match char_at(input, pos) {
        Err(LexError::NoMatch) => {},
        r => return r,
    }
    string_at(input, pos)
}

/// Wherever a fixed-point literal stands, the literal recognizer reads it as one:
/// the digits before its `d` are never taken for a floating-point or integer
/// literal.
pub proof fn lemma_fixed_wins(s: Seq<char>, p: int)
    ensures
        spec_fixed(s, p) is Ok ==> spec_literal(s, p) == spec_fixed(s, p),
{
    if spec_fixed(s, p) is Ok {
        assert(0 <= p < s.len());
        assert(!is_ident_start(s[p]));
    }
}

/// Wherever a floating-point literal stands and no fixed-point literal does, the
/// literal recognizer reads the floating-point literal, not an integer before its
/// point.
pub proof fn lemma_float_before_integer(s: Seq<char>, p: int)
    ensures
        spec_float(s, p) is Ok && spec_fixed(s, p) == Err::<(LiteralModel, int), LexError>(
            LexError::NoMatch,
        ) ==> spec_literal(s, p) == spec_float(s, p),
{
    if spec_float(s, p) is Ok {
        assert(0 <= p < s.len());
        assert(!is_ident_start(s[p]));
    }
}

/// Two string literals with only white space between them read as one string:
/// the first one's characters, then the second one's, with nothing inserted.
pub proof fn lemma_adjacent_strings_join(a: Seq<char>, ws: Seq<char>, b: Seq<char>)
    requires
        forall|i: int| 0 <= i < a.len() ==> #[trigger] a[i] != '"',
        forall|i: int| 0 <= i < b.len() ==> #[trigger] b[i] != '"',
        forall|i: int| 0 <= i < ws.len() ==> is_space(#[trigger] ws[i]),
    ensures
        ({
            let s = seq!['"'] + a + seq!['"'] + ws + seq!['"'] + b + seq!['"'];
            spec_string(s, 0) == Ok::<(LiteralModel, int), LexError>(
                (LiteralModel::Str(a + b), s.len() as int),
            )
        }),
{
    let s = seq!['"'] + a + seq!['"'] + ws + seq!['"'] + b + seq!['"'];
    let q1: int = a.len() as int + 1;
    let w: int = q1 + 1 + ws.len();
    let q2: int = w + 1 + b.len();
    assert(s.len() == q2 + 1);
    assert(s[0] == '"');
    assert forall|i: int| 1 <= i < q1 implies #[trigger] s[i] != '"' by {
        assert(s[i] == a[i - 1]);
    }
    assert(s[q1] == '"');
    lemma_quote_end_skip(s, 1, q1);
    assert forall|i: int| q1 + 1 <= i < w implies is_space(#[trigger] s[i]) by {
        assert(s[i] == ws[i - q1 - 1]);
    }
    assert(s[w] == '"');
    lemma_space_end_skip(s, q1 + 1, w);
    assert forall|i: int| w + 1 <= i < q2 implies #[trigger] s[i] != '"' by {
        assert(s[i] == b[i - w - 1]);
    }
    assert(s[q2] == '"');
    lemma_quote_end_skip(s, w + 1, q2);
    assert(space_end(s, q2 + 1) == q2 + 1);
    assert(!(has(s, q2 + 1, '"')));
    assert(segments(s, w) == Ok::<(Seq<char>, int), LexError>((s.subrange(w + 1, q2), q2 + 1)));
    assert(s.subrange(1, q1) =~= a);
    assert(s.subrange(w + 1, q2) =~= b);
}

/// One Latin-1 character between single quotes is a character literal, whatever
/// follows it; any other character there is malformed.
pub proof fn lemma_char_literal(c: char, rest: Seq<char>)
    ensures
        ({
            let s = seq!['\'', c, '\''] + rest;
            spec_char(s, 0) == if is_latin1(c) {
                Ok((LiteralModel::Character(c), 3int))
            } else {
                Err(LexError::MalformedCharacter { start: 0 })
            }
        }),
{
    let s = seq!['\'', c, '\''] + rest;
    assert(s[0] == '\'' && s[1] == c && s[2] == '\'');
}

/// More than one character between the quotes is a malformed character literal.
pub proof fn lemma_char_literal_one_char(c1: char, c2: char, rest: Seq<char>)
    requires
        c2 != '\'',
    ensures
        spec_char(seq!['\'', c1, c2] + rest, 0) == Err::<(LiteralModel, int), LexError>(
            LexError::MalformedCharacter { start: 0 },
        ),
{
    let s = seq!['\'', c1, c2] + rest;
    assert(s[0] == '\'' && s[2] == c2);
}

/// Which recognizer a [`LiteralParser`] runs.
#[derive(Debug, Clone, Copy, PartialEq, Eq)]
pub enum LiteralKind {
    True,
    False,
    Bool,
    DecInt,
    HexInt,
    OctInt,
    Int,
    Float,
    Fixed,
    Char,
    Str,
    Any,
}

/// A literal recognizer, as built by the `*_parser` functions of [`Literal`].
#[derive(Debug, Clone, Copy, PartialEq, Eq)]
pub struct LiteralParser {
    pub kind: LiteralKind,
}

/// What the recognizer of `kind` yields at position `p` of `s`.
pub open spec fn spec_parse_at(kind: LiteralKind, s: Seq<char>, p: int) -> Lexed {
    match kind {
        LiteralKind::True => spec_true(s, p),
        LiteralKind::False => spec_false(s, p),
        LiteralKind::Bool => spec_bool(s, p),
        LiteralKind::DecInt => spec_dec(s, p),
        LiteralKind::HexInt => spec_hex(s, p),
        LiteralKind::OctInt => spec_oct(s, p),
        LiteralKind::Int => spec_int(s, p),
        LiteralKind::Float => spec_float(s, p),
        LiteralKind::Fixed => spec_fixed(s, p),
        LiteralKind::Char => spec_char(s, p),
        LiteralKind::Str => spec_string(s, p),
        LiteralKind::Any => spec_literal(s, p),
    }
}

/// The value alone of a recognizer's outcome.
pub open spec fn value_of(r: Lexed) -> Result<LiteralModel, LexError> {
    match r {
        Ok((v, _)) => Ok(v),
        Err(x) => Err(x),
    }
}

/// A parse result in the mathematical model.
pub open spec fn value_view(r: Result<Literal, LexError>) -> Result<LiteralModel, LexError> {
    match r {
        Ok(l) => Ok(l@),
        Err(x) => Err(x),
    }
}

impl LiteralParser {
    /// Runs the recognizer at character position `pos` of `input`: the literal and
    /// the position just past it, or why there is none.
    pub fn parse_at(&self, input: &[char], pos: usize) -> (r: Result<(Literal, usize), LexError>)
        ensures
            lexed_view(r) == spec_parse_at(self.kind, input@, pos as int),
    {
        match self.kind {
            LiteralKind::True => true_at(input, pos),
            LiteralKind::False => false_at(input, pos),
            LiteralKind::Bool => bool_at(input, pos),
            LiteralKind::DecInt => dec_at(input, pos),
            LiteralKind::HexInt => hex_at(input, pos),
            LiteralKind::OctInt => oct_at(input, pos),
            LiteralKind::Int => int_at(input, pos),
            LiteralKind::Float => float_at(input, pos),
            LiteralKind::Fixed => fixed_at(input, pos),
            LiteralKind::Char => char_at(input, pos),
            LiteralKind::Str => string_at(input, pos),
            LiteralKind::Any => literal_at(input, pos),
        }
    }

    /// Runs the recognizer at the start of `input`; what follows the literal is left
    /// alone.
    pub fn parse(&self, input: &str) -> (r: Result<Literal, LexError>)
        ensures
            value_view(r) == value_of(spec_parse_at(self.kind, input@, 0)),
    {
        let chars = chars_of(input);
        match self.parse_at(chars.as_slice(), 0) {
            Ok((l, _)) => Ok(l),
            Err(x) => Err(x),
        }
    }
}

impl Literal {
    /// Recognizes `TRUE` as a whole word.
    pub fn true_parser() -> (r: LiteralParser)
        ensures
            r.kind == LiteralKind::True,
    {
        LiteralParser { kind: LiteralKind::True }
    }

    /// Recognizes `FALSE` as a whole word.
    pub fn false_parser() -> (r: LiteralParser)
        ensures
            r.kind == LiteralKind::False,
    {
        LiteralParser { kind: LiteralKind::False }
    }

    /// Recognizes `TRUE`, then `FALSE`.
    pub fn bool_parser() -> (r: LiteralParser)
        ensures
            r.kind == LiteralKind::Bool,
    {
        LiteralParser { kind: LiteralKind::Bool }
    }

    /// Recognizes a run of decimal digits.
    pub fn dec_int_parser() -> (r: LiteralParser)
        ensures
            r.kind == LiteralKind::DecInt,
    {
        LiteralParser { kind: LiteralKind::DecInt }
    }

    /// Recognizes `0x` or `0X` and a run of hex digits.
    pub fn hex_int_parser() -> (r: LiteralParser)
        ensures
            r.kind == LiteralKind::HexInt,
    {
        LiteralParser { kind: LiteralKind::HexInt }
    }

    /// Recognizes `0` and a run of octal digits.
    pub fn oct_int_parser() -> (r: LiteralParser)
        ensures
            r.kind == LiteralKind::OctInt,
    {
        LiteralParser { kind: LiteralKind::OctInt }
    }

    /// Recognizes an integer: hex, then octal, then decimal.
    pub fn int_parser() -> (r: LiteralParser)
        ensures
            r.kind == LiteralKind::Int,
    {
        LiteralParser { kind: LiteralKind::Int }
    }

    /// Recognizes a floating-point literal.
    pub fn float_parser() -> (r: LiteralParser)
        ensures
            r.kind == LiteralKind::Float,
    {
        LiteralParser { kind: LiteralKind::Float }
    }

    /// Recognizes a fixed-point literal.
    pub fn fixed_parser() -> (r: LiteralParser)
        ensures
            r.kind == LiteralKind::Fixed,
    {
        LiteralParser { kind: LiteralKind::Fixed }
    }

    /// Recognizes a character literal.
    pub fn char_parser() -> (r: LiteralParser)
        ensures
            r.kind == LiteralKind::Char,
    {
        LiteralParser { kind: LiteralKind::Char }
    }

    /// Recognizes one or more adjacent string literals.
    pub fn string_parser() -> (r: LiteralParser)
        ensures
            r.kind == LiteralKind::Str,
    {
        LiteralParser { kind: LiteralKind::Str }
    }

    /// Recognizes any literal.
    pub fn parser() -> (r: LiteralParser)
        ensures
            r.kind == LiteralKind::Any,
    {
        LiteralParser { kind: LiteralKind::Any }
    }
}

/// A hexadecimal literal `0x` (or `0X`) followed by hex digits `d` has the value of
/// `d` in base 16, or overflows where that exceeds 64 bits; and the integer
/// recognizer reads it as hexadecimal, before octal or decimal can claim it.
pub proof fn lemma_hex_literal(x: char, d: Seq<char>)
    requires
        x == 'x' || x == 'X',
        d.len() > 0,
        forall|i: int| 0 <= i < d.len() ==> is_digit_in(#[trigger] d[i], 16),
    ensures
        ({
            let s = seq!['0', x] + d;
            let v = digits_value(d, 0, d.len() as int, 16);
            &&& spec_hex(s, 0) == if v <= u64::MAX {
                Ok((LiteralModel::Integer(v as u64), s.len() as int))
            } else {
                Err(LexError::NumericOverflow { start: 0, end: s.len() as usize })
            }
            &&& spec_int(s, 0) == spec_hex(s, 0)
        }),
{
    let pre = seq!['0', x];
    let s = pre + d;
    assert forall|i: int| 2 <= i < s.len() implies is_digit_in(#[trigger] s[i], 16) by {
        assert(s[i] == d[i - 2]);
    }
    lemma_run_end_to_end(s, 2, 16);
    lemma_digits_value_shift(pre, d, d.len() as int, 16);
    assert(has(s, 0, '0'));
    assert(s[1] == x);
}

/// An octal literal `0` followed by octal digits `d` has the value of `d` in base
/// 8, or overflows where that exceeds 64 bits; the integer recognizer reads it as
/// octal, before decimal.
pub proof fn lemma_oct_literal(d: Seq<char>)
    requires
        d.len() > 0,
        forall|i: int| 0 <= i < d.len() ==> is_digit_in(#[trigger] d[i], 8),
    ensures
        ({
            let s = seq!['0'] + d;
            let v = digits_value(d, 0, d.len() as int, 8);
            &&& spec_oct(s, 0) == if v <= u64::MAX {
                Ok((LiteralModel::Integer(v as u64), s.len() as int))
            } else {
                Err(LexError::NumericOverflow { start: 0, end: s.len() as usize })
            }
            &&& spec_int(s, 0) == spec_oct(s, 0)
        }),
{
    let pre = seq!['0'];
    let s = pre + d;
    assert forall|i: int| 1 <= i < s.len() implies is_digit_in(#[trigger] s[i], 8) && is_digit_in(
        s[i],
        10,
    ) by {
        assert(s[i] == d[i - 1]);
    }
    lemma_run_end_to_end(s, 1, 8);
    lemma_run_end_to_end(s, 1, 10);
    lemma_digits_value_shift(pre, d, d.len() as int, 8);
    assert(has(s, 0, '0'));
    assert(!is_digit_in(s[1], 16) || s[1] != 'x');
}

/// Decimal digits after a leading `0` that hold an `8` or a `9` are no octal
/// literal; the decimal recognizer reads the same text as a decimal number.
pub proof fn lemma_oct_rejects_eight_nine(d: Seq<char>, j: int)
    requires
        0 <= j < d.len(),
        d[j] == '8' || d[j] == '9',
        forall|i: int| 0 <= i < d.len() ==> is_digit_in(#[trigger] d[i], 10),
    ensures
        ({
            let s = seq!['0'] + d;
            let v = digits_value(s, 0, s.len() as int, 10);
            &&& spec_oct(s, 0) == Err::<(LiteralModel, int), LexError>(LexError::NoMatch)
            &&& spec_dec(s, 0) == if v <= u64::MAX {
                Ok((LiteralModel::Integer(v as u64), s.len() as int))
            } else {
                Err(LexError::NumericOverflow { start: 0, end: s.len() as usize })
            }
        }),
{
    let s = seq!['0'] + d;
    assert forall|i: int| 0 <= i < s.len() implies is_digit_in(#[trigger] s[i], 10) by {
        if i > 0 {
            assert(s[i] == d[i - 1]);
        }
    }
    lemma_run_end_to_end(s, 0, 10);
    lemma_run_end_to_end(s, 1, 10);
    assert(s[j + 1] == d[j]);
    lemma_run_end_stops(s, 1, j + 1, 8);
}

} // verus!
