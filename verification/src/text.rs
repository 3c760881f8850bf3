//! Characters and texts: blanks, case, scanning, and numbers in base ten.

use vstd::prelude::*;

verus! {

/// Whether `c` separates the words of a message: one of the ASCII blanks.
pub open spec fn is_space(c: char) -> bool {
    c == ' ' || c == '\t' || c == '\n' || c == '\r' || c == '\x0c'
}

/// `c` with an ASCII capital letter replaced by its small letter.
pub open spec fn ascii_lower(c: char) -> char {
    if 'A' <= c && c <= 'Z' {
        ((c as u8) + 32) as char
    } else {
        c
    }
}

/// Tells whether `c` is a blank.
pub fn space(c: char) -> (b: bool)
    ensures
        b == is_space(c),
{
    c == ' ' || c == '\t' || c == '\n' || c == '\r' || c == '\x0c'
}

/// Gives `c` as a small letter where it is an ASCII capital, and else as it is.
pub fn lower(c: char) -> (r: char)
    ensures
        r == ascii_lower(c),
{
    if 'A' <= c && c <= 'Z' {
        ((c as u8) + 32) as char
    } else {
        c
    }
}

/// The characters of `s`, in order.
pub fn chars_of(s: &str) -> (v: Vec<char>)
    ensures
        v@ == s@,
{
    let mut v: Vec<char> = Vec::new();
    for c in it: s.chars()
        invariant
            v@ == it.seq().take(it.index() as int),
    {
        v.push(c);
    }
    v
}

/// The character that writes the digit `d`, for `d` below ten.
pub open spec fn digit_char(d: nat) -> char {
    if d == 0 {
        '0'
    } else if d == 1 {
        '1'
    } else if d == 2 {
        '2'
    } else if d == 3 {
        '3'
    } else if d == 4 {
        '4'
    } else if d == 5 {
        '5'
    } else if d == 6 {
        '6'
    } else if d == 7 {
        '7'
    } else if d == 8 {
        '8'
    } else {
        '9'
    }
}

/// `n` written in base ten, without sign and without leading zeros.
pub open spec fn decimal_text(n: nat) -> Seq<char>
    decreases n,
{
    if n < 10 {
        seq![digit_char(n)]
    } else {
        decimal_text(n / 10).push(digit_char(n % 10))
    }
}

fn digit_str(d: u64) -> (s: &'static str)
    requires
        d < 10,
    ensures
        s@ == seq![digit_char(d as nat)],
{
    proof {
        reveal_strlit("0");
        reveal_strlit("1");
        reveal_strlit("2");
        reveal_strlit("3");
        reveal_strlit("4");
        reveal_strlit("5");
        reveal_strlit("6");
        reveal_strlit("7");
        reveal_strlit("8");
        reveal_strlit("9");
    }
    let s = if d == 0 {
        "0"
    } else if d == 1 {
        "1"
    } else if d == 2 {
        "2"
    } else if d == 3 {
        "3"
    } else if d == 4 {
        "4"
    } else if d == 5 {
        "5"
    } else if d == 6 {
        "6"
    } else if d == 7 {
        "7"
    } else if d == 8 {
        "8"
    } else {
        "9"
    };
    assert(s@ =~= seq![digit_char(d as nat)]);
    s
}

/// Appends `n`, written in base ten, to `out`.
pub fn push_decimal(out: &mut String, n: u64)
    ensures
        final(out)@ == old(out)@ + decimal_text(n as nat),
    decreases n,
{
    if n < 10 {
        out.append(digit_str(n));
        assert(final(out)@ =~= old(out)@ + decimal_text(n as nat));
    } else {
        push_decimal(out, n / 10);
        out.append(digit_str(n % 10));
        assert(final(out)@ =~= old(out)@ + decimal_text(n as nat));
    }
}

/// The first index at or after `from` whose item meets `wanted`, or the
/// length of `s` where there is none.
pub open spec fn first_index<T>(s: Seq<T>, wanted: spec_fn(T) -> bool, from: int) -> int
    decreases s.len() - from,
{
    if from < 0 || from >= s.len() {
        s.len() as int
    } else if wanted(s[from]) {
        from
    } else {
        first_index(s, wanted, from + 1)
    }
}

/// `first_index` lies between `from` and the length, no item before it meets
/// `wanted`, and the item at it does, where there is one.
pub proof fn lemma_first_index<T>(s: Seq<T>, wanted: spec_fn(T) -> bool, from: int)
    requires
        0 <= from <= s.len(),
    ensures
        from <= first_index(s, wanted, from) <= s.len(),
        forall|j: int| from <= j < first_index(s, wanted, from) ==> !wanted(#[trigger] s[j]),
        first_index(s, wanted, from) < s.len() ==> wanted(s[first_index(s, wanted, from)]),
    decreases s.len() - from,
{
    if from < s.len() && !wanted(s[from]) {
        lemma_first_index(s, wanted, from + 1);
    }
}

/// An index at or after `from` with nothing wanted before it, and either the
/// end or a wanted item at it, is `first_index`.
pub proof fn lemma_first_index_is<T>(s: Seq<T>, wanted: spec_fn(T) -> bool, from: int, at: int)
    requires
        0 <= from <= at <= s.len(),
        forall|j: int| from <= j < at ==> !wanted(#[trigger] s[j]),
        at < s.len() ==> wanted(s[at]),
    ensures
        first_index(s, wanted, from) == at,
    decreases at - from,
{
    if from < at {
        lemma_first_index_is(s, wanted, from + 1, at);
    }
}

/// The test for a blank.
pub open spec fn blank() -> spec_fn(char) -> bool {
    |c: char| is_space(c)
}

/// The test for a character that is no blank.
pub open spec fn solid() -> spec_fn(char) -> bool {
    |c: char| !is_space(c)
}

/// The test for the character `wanted`.
pub open spec fn exactly(wanted: char) -> spec_fn(char) -> bool {
    |c: char| c == wanted
}

/// The index of the first blank at or after `from`, or the length.
pub fn find_blank(v: &Vec<char>, from: usize) -> (at: usize)
    requires
        from <= v.len(),
    ensures
        at == first_index(v@, blank(), from as int),
        from <= at <= v.len(),
{
    let mut at: usize = from;
    while at < v.len() && !space(v[at])
        invariant
            from <= at <= v.len(),
            first_index(v@, blank(), from as int) == first_index(v@, blank(), at as int),
        decreases v.len() - at,
    {
        at += 1;
    }
    at
}

/// The index of the first character at or after `from` that is no blank, or
/// the length.
pub fn find_solid(v: &Vec<char>, from: usize) -> (at: usize)
    requires
        from <= v.len(),
    ensures
        at == first_index(v@, solid(), from as int),
        from <= at <= v.len(),
{
    let mut at: usize = from;
    while at < v.len() && space(v[at])
        invariant
            from <= at <= v.len(),
            first_index(v@, solid(), from as int) == first_index(v@, solid(), at as int),
        decreases v.len() - at,
    {
        at += 1;
    }
    at
}

/// The index of the first `wanted` at or after `from`, or the length.
pub fn find_char(v: &Vec<char>, wanted: char, from: usize) -> (at: usize)
    requires
        from <= v.len(),
    ensures
        at == first_index(v@, exactly(wanted), from as int),
        from <= at <= v.len(),
{
    let mut at: usize = from;
    while at < v.len() && v[at] != wanted
        invariant
            from <= at <= v.len(),
            first_index(v@, exactly(wanted), from as int) == first_index(
                v@,
                exactly(wanted),
                at as int,
            ),
        decreases v.len() - at,
    {
        at += 1;
    }
    at
}

/// The characters of `v` from `from` up to `to`.
pub fn sub_vec(v: &Vec<char>, from: usize, to: usize) -> (part: Vec<char>)
    requires
        from <= to <= v.len(),
    ensures
        part@ == v@.subrange(from as int, to as int),
{
    let mut part: Vec<char> = Vec::new();
    let mut at: usize = from;
    while at < to
        invariant
            from <= at <= to <= v.len(),
            part@ == v@.subrange(from as int, at as int),
        decreases to - at,
    {
        part.push(v[at]);
        assert(part@ =~= v@.subrange(from as int, at + 1));
        at += 1;
    }
    part
}

/// Whether `a` and `b` are the same but for the case of ASCII letters.
pub open spec fn same_ignoring_case(a: Seq<char>, b: Seq<char>) -> bool {
    a.len() == b.len() && forall|i: int|
        0 <= i < a.len() ==> ascii_lower(#[trigger] a[i]) == ascii_lower(b[i])
}

/// Compares two texts without regard to the case of ASCII letters.
pub fn eq_ignoring_case(a: &Vec<char>, b: &Vec<char>) -> (same: bool)
    ensures
        same == same_ignoring_case(a@, b@),
{
    if a.len() != b.len() {
        return false;
    }
    let mut at: usize = 0;
    while at < a.len()
        invariant
            at <= a.len(),
            a.len() == b.len(),
            forall|i: int| 0 <= i < at ==> ascii_lower(#[trigger] a@[i]) == ascii_lower(b@[i]),
        decreases a.len() - at,
    {
        if lower(a[at]) != lower(b[at]) {
            return false;
        }
        at += 1;
    }
    true
}

/// Whether `c` is one of the ten digits.
pub open spec fn is_digit(c: char) -> bool {
    '0' <= c && c <= '9'
}

/// The number that the digit `c` writes.
pub open spec fn digit_value(c: char) -> nat {
    (c as nat - '0' as nat) as nat
}

/// Whether `s` holds digits only.
pub open spec fn all_digits(s: Seq<char>) -> bool {
    forall|i: int| 0 <= i < s.len() ==> is_digit(#[trigger] s[i])
}

/// The number that the digits `s` write in base ten; 0 for no digits.
pub open spec fn digits_value(s: Seq<char>) -> nat
    decreases s.len(),
{
    if s.len() == 0 {
        0
    } else {
        digits_value(s.drop_last()) * 10 + digit_value(s.last())
    }
}

/// `s` without a plus sign at its front.
pub open spec fn unsigned_part(s: Seq<char>) -> Seq<char> {
    if s.len() > 0 && s[0] == '+' {
        s.skip(1)
    } else {
        s
    }
}

/// The number below 256 that `s` writes: an optional plus sign, then one
/// digit or more and nothing else; `None` for any other text and for a
/// number that is too large.
pub open spec fn parse_u8_spec(s: Seq<char>) -> Option<u8> {
    let digits = unsigned_part(s);
    if digits.len() > 0 && all_digits(digits) && digits_value(digits) <= 255 {
        Some(digits_value(digits) as u8)
    } else {
        None
    }
}

/// The value of digits does not shrink when more digits follow.
pub proof fn lemma_digits_value_grows(s: Seq<char>, k: int)
    requires
        0 <= k <= s.len(),
    ensures
        digits_value(s.take(k)) <= digits_value(s),
    decreases s.len() - k,
{
    if k == s.len() {
        assert(s.take(k) =~= s);
    } else {
        lemma_digits_value_grows(s.drop_last(), k);
        assert(s.drop_last().take(k) =~= s.take(k));
    }
}

/// Reads a number below 256 written in base ten. Digits are read until the
/// value passes 255, so the text may be of any length.
pub fn parse_u8(v: &Vec<char>) -> (age: Option<u8>)
    ensures
        age == parse_u8_spec(v@),
{
    let first: usize = if v.len() > 0 && v[0] == '+' {
        1
    } else {
        0
    };
    let ghost digits = unsigned_part(v@);
    assert(digits =~= v@.skip(first as int));
    if first == v.len() {
        return None;
    }
    let mut value: u32 = 0;
    let mut at: usize = first;
    while at < v.len()
        invariant
            first <= at <= v.len(),
            digits == v@.skip(first as int),
            digits == unsigned_part(v@),
            all_digits(digits.take(at - first)),
            value == digits_value(digits.take(at - first)),
            value <= 255,
        decreases v.len() - at,
    {
        let c = v[at];
        let ghost seen = digits.take(at - first + 1);
        proof {
            assert(seen.drop_last() =~= digits.take(at - first));
            assert(seen.last() == c);
        }
        if !('0' <= c && c <= '9') {
            assert(!is_digit(digits[at - first]));
            return None;
        }
        let digit: u32 = (c as u32) - ('0' as u32);
        value = value * 10 + digit;
        proof {
            assert forall|i: int| 0 <= i < seen.len() implies is_digit(#[trigger] seen[i]) by {
                if i < at - first {
                    assert(seen[i] == digits.take(at - first)[i]);
                }
            }
        }
        assert(value == digits_value(seen));
        if value > 255 {
            proof {
                lemma_digits_value_grows(digits, at - first + 1);
            }
            return None;
        }
        at += 1;
    }
    assert(digits.take(at - first) =~= digits);
    Some(value as u8)
}

/// Whether `part` stands somewhere in `whole`, unbroken.
pub open spec fn occurs_in(part: Seq<char>, whole: Seq<char>) -> bool {
    exists|at: int|
        0 <= at && at + part.len() <= whole.len() && #[trigger] whole.subrange(
            at,
            at + part.len(),
        ) == part
}

/// A text stands in itself with anything before and after it.
pub proof fn lemma_occurs_between(before: Seq<char>, part: Seq<char>, after: Seq<char>)
    ensures
        occurs_in(part, before + part + after),
{
    let whole = before + part + after;
    let at = before.len() as int;
    assert(whole.subrange(at, at + part.len()) =~= part);
}

/// What stands in a text stands in every text around it.
pub proof fn lemma_occurs_within(
    part: Seq<char>,
    inner: Seq<char>,
    before: Seq<char>,
    after: Seq<char>,
)
    requires
        occurs_in(part, inner),
    ensures
        occurs_in(part, before + inner + after),
{
    let at = choose|at: int|
        0 <= at && at + part.len() <= inner.len() && #[trigger] inner.subrange(
            at,
            at + part.len(),
        ) == part;
    let whole = before + inner + after;
    let moved = before.len() + at;
    assert(whole.subrange(moved, moved + part.len()) =~= inner.subrange(at, at + part.len()));
}

/// A number written in base ten is read back: its text holds digits only,
/// at least one, and they write the number.
pub proof fn lemma_decimal_text_reads_back(n: nat)
    ensures
        decimal_text(n).len() > 0,
        all_digits(decimal_text(n)),
        digits_value(decimal_text(n)) == n,
    decreases n,
{
    let text = decimal_text(n);
    if n < 10 {
        assert(text.drop_last() =~= Seq::<char>::empty());
        assert(digits_value(text.drop_last()) == 0);
        assert(text.last() == digit_char(n));
    } else {
        lemma_decimal_text_reads_back(n / 10);
        assert(text.drop_last() =~= decimal_text(n / 10));
        assert(text.last() == digit_char(n % 10));
        assert forall|i: int| 0 <= i < text.len() implies is_digit(#[trigger] text[i]) by {
            if i < text.len() - 1 {
                assert(text[i] == decimal_text(n / 10)[i]);
            }
        }
    }
}

/// The age that a number below 256 writes is that number.
pub proof fn lemma_parse_u8_reads_decimal(n: u8)
    ensures
        parse_u8_spec(decimal_text(n as nat)) == Some(n),
{
    lemma_decimal_text_reads_back(n as nat);
    assert(is_digit(decimal_text(n as nat)[0]));
}

} // verus!
