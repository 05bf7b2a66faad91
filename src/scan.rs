//! Character classes and maximal runs of characters: the lexical building blocks
//! that the recognizers share.
use vstd::prelude::*;
use vstd::std_specs::iter::IteratorSpec;
use vstd::string::StrSliceExecFns;

verus! {

/// `c` is a digit of the given radix (8, 10 or 16; hex digits in either case).
pub open spec fn is_digit_in(c: char, radix: nat) -> bool {
    if radix == 16 {
        ('0' <= c && c <= '9') || ('a' <= c && c <= 'f') || ('A' <= c && c <= 'F')
    } else if radix == 8 {
        '0' <= c && c <= '7'
    } else {
        '0' <= c && c <= '9'
    }
}

/// The numeric value of a digit character.
pub open spec fn digit_val(c: char) -> nat {
    if '0' <= c && c <= '9' {
        (c as u32 - '0' as u32) as nat
    } else if 'a' <= c && c <= 'f' {
        (c as u32 - 'a' as u32 + 10) as nat
    } else {
        (c as u32 - 'A' as u32 + 10) as nat
    }
}

/// The character at position `p` of `s` exists and is `c`.
pub open spec fn has(s: Seq<char>, p: int, c: char) -> bool {
    0 <= p < s.len() && s[p] == c
}

/// The end of the longest run of `radix` digits that starts at `p`.
pub open spec fn run_end(s: Seq<char>, p: int, radix: nat) -> int
    decreases s.len() - p,
{
    if 0 <= p < s.len() && is_digit_in(s[p], radix) {
        run_end(s, p + 1, radix)
    } else {
        p
    }
}

/// The value of the digits `s[a..b]` read in base `radix`.
pub open spec fn digits_value(s: Seq<char>, a: int, b: int, radix: nat) -> nat
    decreases b - a,
{
    if b <= a {
        0
    } else {
        digits_value(s, a, b - 1, radix) * radix + digit_val(s[b - 1])
    }
}

/// Extending a run of digits by one more digit never lowers its value.
pub proof fn lemma_digits_value_grows(s: Seq<char>, a: int, b: int, radix: nat)
    requires
        a < b,
        radix >= 1,
    ensures
        digits_value(s, a, b - 1, radix) <= digits_value(s, a, b, radix),
{
    let v = digits_value(s, a, b - 1, radix);
    assert(v <= v * radix) by (nonlinear_arith)
        requires radix >= 1;
}

/// A run of digits lies within the text and holds digits only.
pub proof fn lemma_run_end_bounds(s: Seq<char>, p: int, radix: nat)
    requires
        0 <= p <= s.len(),
    ensures
        p <= run_end(s, p, radix) <= s.len(),
        forall|i: int| p <= i < run_end(s, p, radix) ==> is_digit_in(#[trigger] s[i], radix),
    decreases s.len() - p,
{
    if p < s.len() && is_digit_in(s[p], radix) {
        lemma_run_end_bounds(s, p + 1, radix);
    }
}

/// Whether `c` is a digit of the given radix.
pub(crate) fn exec_is_digit_in(c: char, radix: u32) -> (r: bool)
    ensures
        r == is_digit_in(c, radix as nat),
{
    if radix == 16 {
        ('0' <= c && c <= '9') || ('a' <= c && c <= 'f') || ('A' <= c && c <= 'F')
    } else if radix == 8 {
        '0' <= c && c <= '7'
    } else {
        '0' <= c && c <= '9'
    }
}

/// Whether the character at `p` exists and is `c`.
pub(crate) fn char_is(input: &[char], p: usize, c: char) -> (r: bool)
    ensures
        r == has(input@, p as int, c),
{
    let n = input.len();
    p < n && input[p] == c
}

/// The end of the longest run of `radix` digits that starts at `p`.
pub(crate) fn scan_digits(input: &[char], p: usize, radix: u32) -> (e: usize)
    requires
        p <= input@.len(),
    ensures
        e as int == run_end(input@, p as int, radix as nat),
        p <= e <= input@.len(),
{
    let n = input.len();
    let mut i: usize = p;
    while i < n && exec_is_digit_in(input[i], radix)
        invariant
            n == input@.len(),
            p <= i <= n,
            run_end(input@, p as int, radix as nat) == run_end(input@, i as int, radix as nat),
        decreases n - i,
    {
        i = i + 1;
    }
    i
}

/// A character that may start an identifier: an ASCII letter or an underscore.
pub open spec fn is_ident_start(c: char) -> bool {
    ('a' <= c && c <= 'z') || ('A' <= c && c <= 'Z') || c == '_'
}

/// A character that may continue an identifier: an ASCII letter, digit or underscore.
pub open spec fn is_ident_continue(c: char) -> bool {
    is_ident_start(c) || ('0' <= c && c <= '9')
}

/// White space as Unicode's White_Space property has it (the set that
/// `char::is_whitespace` tests): tab, line feed, vertical tab, form feed, carriage
/// return, space, next line, no-break space, and the other Unicode spaces and
/// separators.
pub open spec fn is_space(c: char) -> bool {
    ('\t' <= c && c <= '\r') || c == ' ' || c == '\u{85}' || c == '\u{A0}' || c == '\u{1680}'
        || ('\u{2000}' <= c && c <= '\u{200A}') || c == '\u{2028}' || c == '\u{2029}'
        || c == '\u{202F}' || c == '\u{205F}' || c == '\u{3000}'
}

/// The end of the longest run of identifier-continuation characters from `p`.
pub open spec fn ident_rest_end(s: Seq<char>, p: int) -> int
    decreases s.len() - p,
{
    if 0 <= p < s.len() && is_ident_continue(s[p]) {
        ident_rest_end(s, p + 1)
    } else {
        p
    }
}

/// The end of the identifier that starts at `p` (maximal munch), or `p` itself
/// where no identifier starts there.
pub open spec fn ident_end(s: Seq<char>, p: int) -> int {
    if 0 <= p < s.len() && is_ident_start(s[p]) {
        ident_rest_end(s, p + 1)
    } else {
        p
    }
}

/// The end of the run of white space that starts at `p`.
pub open spec fn space_end(s: Seq<char>, p: int) -> int
    decreases s.len() - p,
{
    if 0 <= p < s.len() && is_space(s[p]) {
        space_end(s, p + 1)
    } else {
        p
    }
}

/// The whole word `w` stands at `p`: the identifier there is exactly `w`, so the
/// text at `p` spells `w` and the character after it cannot continue a word.
pub open spec fn word_at(s: Seq<char>, p: int, w: Seq<char>) -> bool {
    &&& ident_end(s, p) == p + w.len()
    &&& s.subrange(p, p + w.len()) == w
}

/// An identifier lies within the text.
pub proof fn lemma_ident_rest_end_bounds(s: Seq<char>, p: int)
    requires
        0 <= p <= s.len(),
    ensures
        p <= ident_rest_end(s, p) <= s.len(),
    decreases s.len() - p,
{
    if p < s.len() && is_ident_continue(s[p]) {
        lemma_ident_rest_end_bounds(s, p + 1);
    }
}

/// A run of white space lies within the text.
pub proof fn lemma_space_end_bounds(s: Seq<char>, p: int)
    requires
        0 <= p <= s.len(),
    ensures
        p <= space_end(s, p) <= s.len(),
    decreases s.len() - p,
{
    if p < s.len() && is_space(s[p]) {
        lemma_space_end_bounds(s, p + 1);
    }
}

/// Whether `c` may continue an identifier.
pub(crate) fn exec_is_ident_continue(c: char) -> (r: bool)
    ensures
        r == is_ident_continue(c),
{
    ('a' <= c && c <= 'z') || ('A' <= c && c <= 'Z') || c == '_' || ('0' <= c && c <= '9')
}

/// Whether `c` is white space.
pub(crate) fn exec_is_space(c: char) -> (r: bool)
    ensures
        r == is_space(c),
{
    ('\t' <= c && c <= '\r') || c == ' ' || c == '\u{85}' || c == '\u{A0}' || c == '\u{1680}'
        || ('\u{2000}' <= c && c <= '\u{200A}') || c == '\u{2028}' || c == '\u{2029}'
        || c == '\u{202F}' || c == '\u{205F}' || c == '\u{3000}'
}

/// The end of the identifier that starts at `p`, or `p` where none does.
pub(crate) fn scan_ident(input: &[char], p: usize) -> (e: usize)
    requires
        p <= input@.len(),
    ensures
        e as int == ident_end(input@, p as int),
        p <= e <= input@.len(),
{
    let n = input.len();
    if p == n {
        return p;
    }
    let c = input[p];
    if !(('a' <= c && c <= 'z') || ('A' <= c && c <= 'Z') || c == '_') {
        return p;
    }
    let mut i: usize = p + 1;
    while i < n && exec_is_ident_continue(input[i])
        invariant
            n == input@.len(),
            p < i <= n,
            ident_end(input@, p as int) == ident_rest_end(input@, i as int),
        decreases n - i,
    {
        i = i + 1;
    }
    i
}

/// The end of the run of white space that starts at `p`.
pub(crate) fn scan_space(input: &[char], p: usize) -> (e: usize)
    requires
        p <= input@.len(),
    ensures
        e as int == space_end(input@, p as int),
        p <= e <= input@.len(),
{
    let n = input.len();
    let mut i: usize = p;
    while i < n && exec_is_space(input[i])
        invariant
            n == input@.len(),
            p <= i <= n,
            space_end(input@, p as int) == space_end(input@, i as int),
        decreases n - i,
    {
        i = i + 1;
    }
    i
}

/// Whether the whole word `w` stands at `p`.
pub(crate) fn word_is(input: &[char], p: usize, w: &str) -> (r: bool)
    requires
        p <= input@.len(),
    ensures
        r == word_at(input@, p as int, w@),
        r ==> p + w@.len() <= input@.len(),
{
    let e = scan_ident(input, p);
    e - p == w.unicode_len() && range_is(input, p, e, w)
}

/// The value of the digits `input[a..b]` in base `radix`, where it fits in 64 bits.
pub(crate) fn read_digits(input: &[char], a: usize, b: usize, radix: u32) -> (r: Option<u64>)
    requires
        a <= b <= input@.len(),
        radix == 8 || radix == 10 || radix == 16,
        forall|i: int| a <= i < b ==> is_digit_in(#[trigger] input@[i], radix as nat),
    ensures
        r == (if digits_value(input@, a as int, b as int, radix as nat) <= u64::MAX {
            Some(digits_value(input@, a as int, b as int, radix as nat) as u64)
        } else {
            None::<u64>
        }),
{
    let n = input.len();
    let mut acc: u64 = 0;
    let mut i: usize = a;
    while i < b
        invariant
            n == input@.len(),
            a <= i <= b <= n,
            radix == 8 || radix == 10 || radix == 16,
            forall|k: int| a <= k < b ==> is_digit_in(#[trigger] input@[k], radix as nat),
            acc as nat == digits_value(input@, a as int, i as int, radix as nat),
        decreases b - i,
    {
        let c = input[i];
        assert(is_digit_in(input@[i as int], radix as nat));
        let d: u32 = if '0' <= c && c <= '9' {
            c as u32 - '0' as u32
        } else if 'a' <= c && c <= 'f' {
            c as u32 - 'a' as u32 + 10
        } else {
            c as u32 - 'A' as u32 + 10
        };
        assert(d as nat == digit_val(c));
        match acc.checked_mul(radix as u64) {
            Some(m) => match m.checked_add(d as u64) {
                Some(v) => {
                    acc = v;
                },
                None => {
                    proof {
                        lemma_value_stays_above(input@, a as int, i + 1, b as int, radix as nat);
                    }
                    return None;
                },
            },
            None => {
                proof {
                    assert(digits_value(input@, a as int, i + 1, radix as nat) >= acc * radix);
                    lemma_value_stays_above(input@, a as int, i + 1, b as int, radix as nat);
                }
                return None;
            },
        }
        i = i + 1;
    }
    Some(acc)
}

/// The value of a run of digits grows with each digit added at its end.
pub proof fn lemma_value_stays_above(s: Seq<char>, a: int, i: int, b: int, radix: nat)
    requires
        a <= i <= b,
        radix >= 1,
    ensures
        digits_value(s, a, i, radix) <= digits_value(s, a, b, radix),
    decreases b - i,
{
    if i < b {
        lemma_digits_value_grows(s, a, b, radix);
        lemma_value_stays_above(s, a, i, b - 1, radix);
    }
}

/// The position of the first double quote at or after `p`, or the end of `s`.
pub open spec fn quote_end(s: Seq<char>, p: int) -> int
    decreases s.len() - p,
{
    if 0 <= p < s.len() && s[p] != '"' {
        quote_end(s, p + 1)
    } else {
        p
    }
}

/// The search for a closing quote stays within the text.
pub proof fn lemma_quote_end_bounds(s: Seq<char>, p: int)
    requires
        0 <= p <= s.len(),
    ensures
        p <= quote_end(s, p) <= s.len(),
    decreases s.len() - p,
{
    if p < s.len() && s[p] != '"' {
        lemma_quote_end_bounds(s, p + 1);
    }
}

/// The position of the first double quote at or after `p`, or the end of the input.
pub(crate) fn scan_to_quote(input: &[char], p: usize) -> (e: usize)
    requires
        p <= input@.len(),
    ensures
        e as int == quote_end(input@, p as int),
        p <= e <= input@.len(),
{
    let n = input.len();
    let mut i: usize = p;
    while i < n && input[i] != '"'
        invariant
            n == input@.len(),
            p <= i <= n,
            quote_end(input@, p as int) == quote_end(input@, i as int),
        decreases n - i,
    {
        i = i + 1;
    }
    i
}

/// Whether the characters `input[a..b]` are exactly `w`.
pub(crate) fn range_is(input: &[char], a: usize, b: usize, w: &str) -> (r: bool)
    requires
        a <= b <= input@.len(),
    ensures
        r == (input@.subrange(a as int, b as int) == w@),
{
    let n = input.len();
    let m = w.unicode_len();
    if b - a != m {
        return false;
    }
    let mut j: usize = 0;
    while j < m
        invariant
            n == input@.len(),
            m == w@.len(),
            a + m == b <= n,
            0 <= j <= m,
            forall|k: int| 0 <= k < j ==> input@[a + k] == w@[k],
        decreases m - j,
    {
        if input[a + j] != w.get_char(j) {
            assert(input@.subrange(a as int, b as int)[j as int] != w@[j as int]);
            return false;
        }
        j = j + 1;
    }
    assert(input@.subrange(a as int, b as int) =~= w@);
    true
}

/// The value of digits does not depend on what stands before them.
pub proof fn lemma_digits_value_shift(pre: Seq<char>, d: Seq<char>, k: int, radix: nat)
    requires
        0 <= k <= d.len(),
    ensures
        digits_value(pre + d, pre.len() as int, pre.len() + k, radix) == digits_value(
            d,
            0,
            k,
            radix,
        ),
    decreases k,
{
    if k > 0 {
        lemma_digits_value_shift(pre, d, k - 1, radix);
        assert((pre + d)[pre.len() + k - 1] == d[k - 1]);
    }
}

/// A run of digits that reaches the end of the text ends there.
pub proof fn lemma_run_end_to_end(s: Seq<char>, p: int, radix: nat)
    requires
        0 <= p <= s.len(),
        forall|i: int| p <= i < s.len() ==> is_digit_in(#[trigger] s[i], radix),
    ensures
        run_end(s, p, radix) == s.len(),
    decreases s.len() - p,
{
    if p < s.len() {
        lemma_run_end_to_end(s, p + 1, radix);
    }
}

/// A run of digits stops before the first character that is not a digit.
pub proof fn lemma_run_end_stops(s: Seq<char>, p: int, j: int, radix: nat)
    requires
        0 <= p <= j < s.len(),
        !is_digit_in(s[j], radix),
    ensures
        run_end(s, p, radix) <= j,
    decreases j - p,
{
    if p < j && is_digit_in(s[p], radix) {
        lemma_run_end_stops(s, p + 1, j, radix);
    }
}

/// The characters of `s`, in order.
pub fn chars_of(s: &str) -> (r: Vec<char>)
    ensures
        r@ == s@,
{
    broadcast use vstd::string::axiom_spec_iter, vstd::string::next_postcondition;

    let mut r: Vec<char> = Vec::new();
    let mut it = s.chars();
    loop
        invariant
            r@ + it.remaining() == s@,
            it.decrease() is Some,
        ensures
            r@ == s@,
        decreases it.decrease()->0,
    {
        match it.next() {
            Some(c) => {
                assert(r@.push(c) + it.remaining() =~= s@);
                r.push(c);
            },
            None => {
                assert(r@ =~= s@);
                break;
            },
        }
    }
    r
}

/// Relies on `String::push`: appends the character to the end of the string.
#[verifier::external_body]
fn push_char(s: &mut String, c: char)
    ensures
        final(s)@ == old(s)@.push(c),
{
    s.push(c);
}

/// The characters `input[a..b]` as a string.
pub(crate) fn string_of(input: &[char], a: usize, b: usize) -> (r: String)
    requires
        a <= b <= input@.len(),
    ensures
        r@ == input@.subrange(a as int, b as int),
{
    let mut r = String::new();
    let mut i: usize = a;
    while i < b
        invariant
            a <= i <= b <= input@.len(),
            r@ == input@.subrange(a as int, i as int),
        decreases b - i,
    {
        push_char(&mut r, input[i]);
        assert(input@.subrange(a as int, i + 1) =~= input@.subrange(a as int, i as int).push(
            input@[i as int],
        ));
        i = i + 1;
    }
    r
}

/// The search for a quote passes over characters that are not quotes.
pub proof fn lemma_quote_end_skip(s: Seq<char>, p: int, q: int)
    requires
        0 <= p <= q <= s.len(),
        forall|i: int| p <= i < q ==> #[trigger] s[i] != '"',
    ensures
        quote_end(s, p) == quote_end(s, q),
    decreases q - p,
{
    if p < q {
        lemma_quote_end_skip(s, p + 1, q);
    }
}

/// A run of white space passes over white space.
pub proof fn lemma_space_end_skip(s: Seq<char>, p: int, q: int)
    requires
        0 <= p <= q <= s.len(),
        forall|i: int| p <= i < q ==> is_space(#[trigger] s[i]),
    ensures
        space_end(s, p) == space_end(s, q),
    decreases q - p,
{
    if p < q {
        lemma_space_end_skip(s, p + 1, q);
    }
}

} // verus!
