//! Character-sequence helpers shared by the parsers and formatters.
//!
//! Text is handled as sequences of `char`: the specifications speak of
//! `Seq<char>` (the view of a `str`, a `String` or a `Vec<char>`), and the
//! executable helpers work on `Vec<char>`.

use vstd::prelude::*;

verus! {

/// `String::push` appends one character to the end of the string.
pub assume_specification[ String::push ](s: &mut String, ch: char)
    ensures
        final(s)@ == old(s)@.push(ch),
;

// ---------------------------------------------------------------------------
// Specifications
// ---------------------------------------------------------------------------

/// The views of a sequence of character vectors.
pub open spec fn seqs_of(v: Seq<Vec<char>>) -> Seq<Seq<char>> {
    v.map_values(|p: Vec<char>| p@)
}

/// A sequence with one more element contains what it held and the new one.
pub proof fn lemma_push_contains<A>(s: Seq<A>, x: A, r: A)
    ensures
        s.push(x).contains(r) <==> (s.contains(r) || x == r),
{
    if s.push(x).contains(r) && x != r {
        let w = choose|w: int| 0 <= w < s.len() + 1 && s.push(x)[w] == r;
        assert(s[w] == r);
    }
    if s.contains(r) {
        let w = choose|w: int| 0 <= w < s.len() && s[w] == r;
        assert(s.push(x)[w] == r);
    }
    if x == r {
        assert(s.push(x)[s.len() as int] == r);
    }
}

/// Pushing a string pushes its view.
pub proof fn lemma_strings_of_push(v: Seq<String>, x: String)
    ensures
        strings_of(v.push(x)) == strings_of(v).push(x@),
{
    assert(strings_of(v.push(x)) =~= strings_of(v).push(x@));
}

/// Pushing a vector pushes its view.
pub proof fn lemma_seqs_of_push(v: Seq<Vec<char>>, x: Vec<char>)
    ensures
        seqs_of(v.push(x)) == seqs_of(v).push(x@),
{
    assert(seqs_of(v.push(x)) =~= seqs_of(v).push(x@));
}

/// The views of a sequence of strings.
pub open spec fn strings_of(v: Seq<String>) -> Seq<Seq<char>> {
    v.map_values(|s: String| s@)
}

/// `s` begins with `p`.
pub open spec fn starts_with(s: Seq<char>, p: Seq<char>) -> bool {
    p.len() <= s.len() && s.take(p.len() as int) == p
}

/// `s` ends with `p`.
pub open spec fn ends_with(s: Seq<char>, p: Seq<char>) -> bool {
    p.len() <= s.len() && s.skip(s.len() - p.len()) == p
}

/// `p` occurs in `s` at position `i`.
pub open spec fn occurs_at(s: Seq<char>, p: Seq<char>, i: int) -> bool {
    0 <= i && i + p.len() <= s.len() && s.subrange(i, i + p.len()) == p
}

/// `p` occurs somewhere in `s` (the empty pattern occurs in every string).
pub open spec fn contains_seq(s: Seq<char>, p: Seq<char>) -> bool {
    exists|i: int| occurs_at(s, p, i)
}

/// The pieces of `s` between occurrences of `sep`, as `str::split` with a
/// `char` pattern yields them: one more piece than there are separators,
/// empty pieces included.
pub open spec fn split_on(s: Seq<char>, sep: char) -> Seq<Seq<char>>
    decreases s.len(),
{
    if s.len() == 0 {
        seq![Seq::<char>::empty()]
    } else {
        let pieces = split_on(s.drop_last(), sep);
        if s.last() == sep {
            pieces.push(Seq::<char>::empty())
        } else {
            pieces.update(pieces.len() - 1, pieces.last().push(s.last()))
        }
    }
}

/// The pieces that `str::split_terminator` yields: those of `split_on`,
/// without the last one when it is empty.
pub open spec fn split_terminator_on(s: Seq<char>, sep: char) -> Seq<Seq<char>> {
    let pieces = split_on(s, sep);
    if pieces.last().len() == 0 {
        pieces.drop_last()
    } else {
        pieces
    }
}

/// The pieces joined with `sep` between each two of them.
pub open spec fn join_with(pieces: Seq<Seq<char>>, sep: Seq<char>) -> Seq<char>
    decreases pieces.len(),
{
    if pieces.len() == 0 {
        Seq::<char>::empty()
    } else if pieces.len() == 1 {
        pieces[0]
    } else {
        join_with(pieces.drop_last(), sep) + sep + pieces.last()
    }
}

/// How many bytes a character takes in UTF-8.
pub open spec fn utf8_width(c: char) -> nat {
    if (c as u32) < 0x80 {
        1
    } else if (c as u32) < 0x800 {
        2
    } else if (c as u32) < 0x10000 {
        3
    } else {
        4
    }
}

/// How many bytes a string takes in UTF-8.
pub open spec fn utf8_len(s: Seq<char>) -> nat
    decreases s.len(),
{
    if s.len() == 0 {
        0
    } else {
        utf8_len(s.drop_last()) + utf8_width(s.last())
    }
}

/// A longer prefix takes more bytes.
pub proof fn lemma_utf8_len_increasing(s: Seq<char>, i: int, j: int)
    requires
        0 <= i < j <= s.len(),
    ensures
        utf8_len(s.take(i)) < utf8_len(s.take(j)),
    decreases j - i,
{
    assert(s.take(j).drop_last() =~= s.take(j - 1));
    if i < j - 1 {
        lemma_utf8_len_increasing(s, i, j - 1);
    }
}

/// ASCII decimal digit.
pub open spec fn is_ascii_digit(c: char) -> bool {
    '0' <= c && c <= '9'
}

/// Numeric value of an ASCII decimal digit.
pub open spec fn digit_value(c: char) -> nat {
    ((c as u32) - ('0' as u32)) as nat
}

/// Every character of `s` is an ASCII decimal digit.
pub open spec fn all_digits(s: Seq<char>) -> bool {
    forall|i: int| 0 <= i < s.len() ==> is_ascii_digit(#[trigger] s[i])
}

/// The number written in decimal by the digits `s` (most significant first).
pub open spec fn digits_value(s: Seq<char>) -> nat
    decreases s.len(),
{
    if s.len() == 0 {
        0
    } else {
        digits_value(s.drop_last()) * 10 + digit_value(s.last())
    }
}

/// The digits that `str::parse` reads for an unsigned integer: an optional
/// leading `+` is skipped.
pub open spec fn unsigned_digits(s: Seq<char>) -> Seq<char> {
    if s.len() > 0 && s[0] == '+' {
        s.skip(1)
    } else {
        s
    }
}

/// What `str::parse` gives for an unsigned integer type whose largest value
/// is `max`: `None` for an empty string, a lone `+`, any character that is
/// not an ASCII digit (after an optional leading `+`), or a value above
/// `max`.
pub open spec fn parse_unsigned(s: Seq<char>, max: nat) -> Option<nat> {
    let digits = unsigned_digits(s);
    if digits.len() == 0 || !all_digits(digits) || digits_value(digits) > max {
        None
    } else {
        Some(digits_value(digits))
    }
}

/// The ASCII digit for `d < 10`.
pub open spec fn digit_char(d: nat) -> char {
    (('0' as u32) + d) as char
}

/// The decimal representation of `n`, without leading zeros.
pub open spec fn decimal(n: nat) -> Seq<char>
    decreases n,
{
    if n < 10 {
        seq![digit_char(n)]
    } else {
        decimal(n / 10).push(digit_char(n % 10))
    }
}

// ---------------------------------------------------------------------------
// Lemmas
// ---------------------------------------------------------------------------

/// `split_on` always yields at least one piece.
pub proof fn lemma_split_on_nonempty(s: Seq<char>, sep: char)
    ensures
        split_on(s, sep).len() >= 1,
    decreases s.len(),
{
    if s.len() > 0 {
        lemma_split_on_nonempty(s.drop_last(), sep);
    }
}

/// A string of digits never has a smaller value than any of its prefixes.
pub proof fn lemma_digits_value_prefix(s: Seq<char>, i: int)
    requires
        0 <= i <= s.len(),
        all_digits(s),
    ensures
        digits_value(s.take(i)) <= digits_value(s),
    decreases s.len() - i,
{
    if i < s.len() {
        lemma_digits_value_prefix(s, i + 1);
        assert(s.take(i + 1).drop_last() =~= s.take(i));
        assert(digits_value(s.take(i + 1)) == digits_value(s.take(i)) * 10 + digit_value(
            s.take(i + 1).last(),
        ));
    } else {
        assert(s.take(i) =~= s);
    }
}

/// The decimal representation of `n` is made of digits, and reads back as `n`.
pub proof fn lemma_decimal_digits(n: nat)
    ensures
        all_digits(decimal(n)),
        decimal(n).len() >= 1,
        digits_value(decimal(n)) == n,
        decimal(n)[0] != '+',
    decreases n,
{
    lemma_digit_char_value(n % 10);
    if n < 10 {
        let d = decimal(n);
        assert(d.drop_last() =~= Seq::<char>::empty());
        assert(digits_value(Seq::<char>::empty()) == 0);
        assert(digits_value(d) == digits_value(d.drop_last()) * 10 + digit_value(d.last()));
    }
    if n >= 10 {
        assert(n == (n / 10) * 10 + n % 10);
        lemma_decimal_digits(n / 10);
        let d = decimal(n);
        assert(d.drop_last() =~= decimal(n / 10));
        assert(d.last() == digit_char(n % 10));
        assert(digits_value(d) == digits_value(decimal(n / 10)) * 10 + digit_value(d.last()));
        assert forall|i: int| 0 <= i < d.len() implies is_ascii_digit(#[trigger] d[i]) by {
            if i < d.len() - 1 {
                assert(d[i] == decimal(n / 10)[i]);
            }
        }
    }
}

/// The digit character of `d < 10` is a digit of value `d`.
pub proof fn lemma_digit_char_value(d: nat)
    requires
        d < 10,
    ensures
        is_ascii_digit(digit_char(d)),
        digit_value(digit_char(d)) == d,
        digit_char(d) != '+',
{
}

/// Writing a number in decimal and parsing it back gives the number.
pub proof fn lemma_parse_decimal_roundtrip(n: nat, max: nat)
    requires
        n <= max,
    ensures
        parse_unsigned(decimal(n), max) == Some(n),
{
    lemma_decimal_digits(n);
}

// ---------------------------------------------------------------------------
// Executable helpers
// ---------------------------------------------------------------------------

/// The characters of a string slice, in order.
pub fn chars_of(s: &str) -> (v: Vec<char>)
    ensures
        v@ == s@,
{
    let mut v: Vec<char> = Vec::new();
    for c in it: s.chars()
        invariant
            v@ == it.seq().take(it.index() as int),
            it.seq() == s@,
    {
        v.push(c);
    }
    assert(v@ == s@.take(s@.len() as int));
    v
}

/// A `String` holding the given characters.
pub fn string_from_chars(v: &Vec<char>) -> (s: String)
    ensures
        s@ == v@,
{
    let mut s = String::new();
    let mut i: usize = 0;
    while i < v.len()
        invariant
            i <= v.len(),
            s@ == v@.take(i as int),
        decreases v.len() - i,
    {
        s.push(v[i]);
        assert(v@.take(i as int).push(v[i as int]) =~= v@.take(i + 1));
        i = i + 1;
    }
    assert(v@.take(v.len() as int) =~= v@);
    s
}

/// Appends all of `w` to `v`.
pub fn append_chars(v: &mut Vec<char>, w: &Vec<char>)
    ensures
        final(v)@ == old(v)@ + w@,
{
    let mut i: usize = 0;
    while i < w.len()
        invariant
            i <= w.len(),
            v@ == old(v)@ + w@.take(i as int),
        decreases w.len() - i,
    {
        v.push(w[i]);
        assert(old(v)@ + w@.take(i + 1) =~= (old(v)@ + w@.take(i as int)).push(w[i as int]));
        i = i + 1;
    }
    assert(w@.take(w.len() as int) =~= w@);
}

/// Appends the characters of `s` to `v`.
pub fn append_str(v: &mut Vec<char>, s: &str)
    ensures
        final(v)@ == old(v)@ + s@,
{
    let w = chars_of(s);
    append_chars(v, &w);
}

/// Whether two character sequences are equal.
pub fn chars_eq(a: &Vec<char>, b: &Vec<char>) -> (r: bool)
    ensures
        r == (a@ == b@),
{
    if a.len() != b.len() {
        return false;
    }
    let mut i: usize = 0;
    while i < a.len()
        invariant
            a.len() == b.len(),
            i <= a.len(),
            forall|j: int| 0 <= j < i ==> a@[j] == b@[j],
        decreases a.len() - i,
    {
        if a[i] != b[i] {
            return false;
        }
        i = i + 1;
    }
    assert(a@ =~= b@);
    true
}

/// Whether `p` occurs in `s` at position `start`.
pub fn occurs_at_exec(s: &Vec<char>, p: &Vec<char>, start: usize) -> (r: bool)
    ensures
        r == occurs_at(s@, p@, start as int),
{
    if start > s.len() || p.len() > s.len() - start {
        return false;
    }
    let mut i: usize = 0;
    while i < p.len()
        invariant
            start + p.len() <= s.len(),
            i <= p.len(),
            forall|j: int| 0 <= j < i ==> s@[start + j] == p@[j],
        decreases p.len() - i,
    {
        if s[start + i] != p[i] {
            assert(s@.subrange(start as int, start + p.len())[i as int] != p@[i as int]);
            return false;
        }
        i = i + 1;
    }
    assert(s@.subrange(start as int, start + p.len()) =~= p@);
    true
}

/// Whether `s` begins with `p`.
pub fn starts_with_exec(s: &Vec<char>, p: &Vec<char>) -> (r: bool)
    ensures
        r == starts_with(s@, p@),
{
    let r = occurs_at_exec(s, p, 0);
    assert(s@.take(p@.len() as int) =~= s@.subrange(0, p@.len() as int));
    r
}

/// Whether `s` ends with `p`.
pub fn ends_with_exec(s: &Vec<char>, p: &Vec<char>) -> (r: bool)
    ensures
        r == ends_with(s@, p@),
{
    if p.len() > s.len() {
        return false;
    }
    let r = occurs_at_exec(s, p, s.len() - p.len());
    assert(s@.skip(s@.len() - p@.len()) =~= s@.subrange(
        s@.len() - p@.len(),
        (s@.len() - p@.len()) + p@.len(),
    ));
    r
}

/// Whether `p` occurs anywhere in `s`.
pub fn contains_exec(s: &Vec<char>, p: &Vec<char>) -> (r: bool)
    ensures
        r == contains_seq(s@, p@),
{
    if p.len() > s.len() {
        assert forall|i: int| !occurs_at(s@, p@, i) by {}
        return false;
    }
    if p.len() == 0 {
        assert(s@.subrange(0, 0) =~= p@);
        assert(occurs_at(s@, p@, 0));
        return true;
    }
    let mut i: usize = 0;
    while i <= s.len() - p.len()
        invariant
            1 <= p.len() <= s.len(),
            i <= s.len() - p.len() + 1,
            forall|j: int| 0 <= j < i ==> !occurs_at(s@, p@, j),
        decreases s.len() - p.len() + 1 - i,
    {
        if occurs_at_exec(s, p, i) {
            return true;
        }
        i = i + 1;
    }
    assert forall|j: int| !occurs_at(s@, p@, j) by {
        if 0 <= j < i {
        }
    }
    false
}

/// Whether the character `c` occurs in `s`.
pub fn contains_char(s: &Vec<char>, c: char) -> (r: bool)
    ensures
        r == s@.contains(c),
{
    let mut i: usize = 0;
    while i < s.len()
        invariant
            i <= s.len(),
            forall|j: int| 0 <= j < i ==> s@[j] != c,
        decreases s.len() - i,
    {
        if s[i] == c {
            return true;
        }
        i = i + 1;
    }
    false
}

/// The pieces of `s` between occurrences of `sep` (as `str::split`).
pub fn split_chars(s: &Vec<char>, sep: char) -> (pieces: Vec<Vec<char>>)
    ensures
        seqs_of(pieces@) == split_on(s@, sep),
{
    let mut pieces: Vec<Vec<char>> = Vec::new();
    let mut current: Vec<char> = Vec::new();
    let mut i: usize = 0;
    assert(s@.take(0) =~= Seq::<char>::empty());
    while i < s.len()
        invariant
            i <= s.len(),
            seqs_of(pieces@).push(current@) == split_on(s@.take(i as int), sep),
        decreases s.len() - i,
    {
        let ghost prev = s@.take(i as int);
        assert(s@.take(i + 1).drop_last() =~= prev);
        if s[i] == sep {
            let done = current;
            pieces.push(done);
            current = Vec::new();
            assert(seqs_of(pieces@).push(current@) =~= split_on(prev, sep).push(Seq::<char>::empty()));
        } else {
            current.push(s[i]);
            assert(seqs_of(pieces@).push(current@) =~= split_on(prev, sep).update(
                split_on(prev, sep).len() - 1,
                split_on(prev, sep).last().push(s@[i as int]),
            ));
        }
        i = i + 1;
    }
    assert(s@.take(s.len() as int) =~= s@);
    pieces.push(current);
    pieces
}

/// The pieces of `s` between occurrences of `sep`, without a trailing empty
/// piece (as `str::split_terminator`).
pub fn split_terminator_chars(s: &Vec<char>, sep: char) -> (pieces: Vec<Vec<char>>)
    ensures
        seqs_of(pieces@) == split_terminator_on(s@, sep),
{
    let mut pieces = split_chars(s, sep);
    proof {
        lemma_split_on_nonempty(s@, sep);
    }
    let n = pieces.len();
    if pieces[n - 1].len() == 0 {
        pieces.pop();
        assert(seqs_of(pieces@) =~= split_on(s@, sep).drop_last());
    }
    pieces
}

/// The pieces joined with `sep` between each two of them.
pub fn join_chars(pieces: &Vec<Vec<char>>, sep: &Vec<char>) -> (r: Vec<char>)
    ensures
        r@ == join_with(seqs_of(pieces@), sep@),
{
    let mut r: Vec<char> = Vec::new();
    let mut i: usize = 0;
    while i < pieces.len()
        invariant
            i <= pieces.len(),
            r@ == join_with(seqs_of(pieces@).take(i as int), sep@),
        decreases pieces.len() - i,
    {
        let ghost prev = seqs_of(pieces@).take(i as int);
        assert(seqs_of(pieces@).take(i + 1).drop_last() =~= prev);
        if i > 0 {
            append_chars(&mut r, sep);
        }
        append_chars(&mut r, &pieces[i]);
        proof {
            if i == 0 {
                assert(r@ =~= seqs_of(pieces@).take(1)[0]);
            }
        }
        i = i + 1;
    }
    assert(seqs_of(pieces@).take(pieces.len() as int) =~= seqs_of(pieces@));
    r
}

/// The strings joined with `sep` between each two of them.
pub fn join_strings(pieces: &Vec<String>, sep: &str) -> (r: String)
    ensures
        r@ == join_with(strings_of(pieces@), sep@),
{
    let mut chars: Vec<Vec<char>> = Vec::new();
    let mut i: usize = 0;
    while i < pieces.len()
        invariant
            i <= pieces.len(),
            seqs_of(chars@) == strings_of(pieces@).take(i as int),
        decreases pieces.len() - i,
    {
        let piece = chars_of(pieces[i].as_str());
        proof {
            lemma_seqs_of_push(chars@, piece);
        }
        chars.push(piece);
        assert(seqs_of(chars@) =~= strings_of(pieces@).take(i + 1));
        i = i + 1;
    }
    assert(strings_of(pieces@).take(pieces.len() as int) =~= strings_of(pieces@));
    let s = chars_of(sep);
    let joined = join_chars(&chars, &s);
    string_from_chars(&joined)
}

/// Parses `s` as `str::parse` does for an unsigned integer type whose
/// largest value is `max`.
pub fn parse_unsigned_exec(s: &Vec<char>, max: u64) -> (r: Option<u64>)
    ensures
        match parse_unsigned(s@, max as nat) {
            Some(n) => r == Some(n as u64),
            None => r is None,
        },
{
    let start: usize = if s.len() > 0 && s[0] == '+' {
        1
    } else {
        0
    };
    let ghost digits = unsigned_digits(s@);
    assert(digits =~= s@.skip(start as int));
    if start >= s.len() {
        return None;
    }
    let mut value: u64 = 0;
    let mut i: usize = start;
    while i < s.len()
        invariant
            start <= i <= s.len(),
            digits == s@.skip(start as int),
            digits == unsigned_digits(s@),
            all_digits(digits.take(i - start)),
            value as nat == digits_value(digits.take(i - start)),
            value <= max,
        decreases s.len() - i,
    {
        let c = s[i];
        if c < '0' || c > '9' {
            assert(digits[i - start] == c);
            assert(!is_ascii_digit(digits[i - start]));
            assert(!all_digits(digits));
            return None;
        }
        assert(digits[i - start] == c);
        let d: u64 = ((c as u32) - ('0' as u32)) as u64;
        assert(digits.take(i - start + 1).drop_last() =~= digits.take(i - start));
        assert(digits.take(i - start + 1).last() == c);
        assert forall|j: int| 0 <= j < i - start + 1 implies is_ascii_digit(
            #[trigger] digits.take(i - start + 1)[j],
        ) by {
            if j < i - start {
                assert(digits.take(i - start + 1)[j] == digits.take(i - start)[j]);
            }
        }
        let next: u128 = (value as u128) * 10 + (d as u128);
        if next > max as u128 {
            // the value of the digits read so far already exceeds `max`
            proof {
                assert(digit_value(c) == d as nat);
                assert(digits_value(digits.take(i - start + 1)) == digits_value(
                    digits.take(i - start + 1).drop_last(),
                ) * 10 + digit_value(digits.take(i - start + 1).last()));
                if all_digits(digits) {
                    lemma_digits_value_prefix(digits, i - start + 1);
                }
            }
            return None;
        }
        assert(digit_value(c) == d as nat);
        assert(digits_value(digits.take(i - start + 1)) == digits_value(
            digits.take(i - start + 1).drop_last(),
        ) * 10 + digit_value(digits.take(i - start + 1).last()));
        value = next as u64;
        i = i + 1;
    }
    assert(digits.take(i - start) =~= digits);
    Some(value)
}

/// Appends the decimal representation of `n` to `out`.
pub fn push_decimal(out: &mut Vec<char>, n: u64)
    ensures
        final(out)@ == old(out)@ + decimal(n as nat),
    decreases n,
{
    if n >= 10 {
        push_decimal(out, n / 10);
    }
    let d = n % 10;
    let c = char_from_digit(d);
    out.push(c);
    proof {
        if n >= 10 {
            assert(decimal(n as nat) == decimal((n / 10) as nat).push(digit_char((n % 10) as nat)));
        }
    }
    assert(final(out)@ =~= old(out)@ + decimal(n as nat)) by {
        if n >= 10 {
            assert(decimal(n as nat) == decimal((n / 10) as nat).push(digit_char((n % 10) as nat)));
        }
    }
}

/// The ASCII digit for `d < 10`.
fn char_from_digit(d: u64) -> (c: char)
    requires
        d < 10,
    ensures
        c == digit_char(d as nat),
{
    match d {
        0 => '0',
        1 => '1',
        2 => '2',
        3 => '3',
        4 => '4',
        5 => '5',
        6 => '6',
        7 => '7',
        8 => '8',
        _ => '9',
    }
}

} // verus!
