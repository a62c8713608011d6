//! Character-level helpers shared by the rest of the crate: conversions
//! between strings and character vectors, decimal formatting and parsing,
//! substring search and whitespace tokenisation.
use vstd::prelude::*;

verus! {

/// What `str::to_lowercase` yields for a string, character by character.
pub uninterp spec fn unicode_lowercase(s: Seq<char>) -> Seq<char>;

/// Appends one character to a string.
///
/// Wraps `String::push`, which adds exactly the given character at the end.
#[verifier::external_body]
pub(crate) fn push_char(s: &mut String, c: char)
    ensures
        final(s)@ == old(s)@.push(c),
{
    s.push(c);
}

/// Lower-cases a string.
///
/// Wraps `str::to_lowercase`; the result is a function of the input alone and
/// is named by [`unicode_lowercase`].
#[verifier::external_body]
pub(crate) fn to_lowercase(s: &str) -> (r: String)
    ensures
        r@ == unicode_lowercase(s@),
{
    s.to_lowercase()
}

/// The code point of a character.
pub fn code_point(c: char) -> (r: u32)
    ensures
        r == c as u32,
        r <= 0x10ffff,
{
    c as u32
}

/// Tests whether two strings hold the same characters.
pub fn str_eq(a: &str, b: &str) -> (r: bool)
    ensures
        r == (a@ == b@),
{
    let left = a.to_owned();
    let right = b.to_owned();
    left == right
}

/// The characters of a string, in order.
pub fn chars_of(s: &str) -> (r: Vec<char>)
    ensures
        r@ == s@,
{
    let mut v: Vec<char> = Vec::new();
    for c in it: s.chars()
        invariant
            it.seq() == s@,
            v@ == it.seq().take(it.index() as int),
    {
        v.push(c);
        assert(it.seq().take(it.index() as int).push(c) =~= it.seq().take(it.index() + 1));
    }
    assert(s@.take(s@.len() as int) =~= s@);
    v
}

/// Appends the characters `chars[from..to]` to `out`.
pub fn push_chars(out: &mut String, chars: &Vec<char>, from: usize, to: usize)
    requires
        from <= to <= chars@.len(),
    ensures
        final(out)@ == old(out)@ + chars@.subrange(from as int, to as int),
{
    let mut i: usize = from;
    while i < to
        invariant
            from <= i <= to <= chars@.len(),
            out@ == old(out)@ + chars@.subrange(from as int, i as int),
        decreases to - i,
    {
        push_char(out, chars[i]);
        assert(chars@.subrange(from as int, i as int).push(chars@[i as int])
            =~= chars@.subrange(from as int, i + 1));
        i += 1;
    }
}

/// Appends `count` copies of `c` to `out`.
pub fn push_repeated(out: &mut String, c: char, count: usize)
    ensures
        final(out)@ == old(out)@ + Seq::new(count as nat, |i: int| c),
{
    let mut i: usize = 0;
    while i < count
        invariant
            i <= count,
            out@ == old(out)@ + Seq::new(i as nat, |k: int| c),
        decreases count - i,
    {
        push_char(out, c);
        assert(Seq::new(i as nat, |k: int| c).push(c) =~= Seq::new((i + 1) as nat, |k: int| c));
        i += 1;
    }
}

/// The character that stands for the decimal digit `d`.
pub open spec fn digit_char(d: nat) -> char {
    if d == 0 {
        '0'
    } else if d == 1 {
        '1'
    } else if d == 2 {
        '2'
    } else if d == 3 {
        '3'
    } else if d == 4 {
        '4'
    } else if d == 5 {
        '5'
    } else if d == 6 {
        '6'
    } else if d == 7 {
        '7'
    } else if d == 8 {
        '8'
    } else {
        '9'
    }
}

/// The decimal numeral of `n`, without sign or leading zeros.
pub open spec fn decimal(n: nat) -> Seq<char>
    decreases n,
{
    if n < 10 {
        seq![digit_char(n)]
    } else {
        decimal(n / 10).push(digit_char(n % 10))
    }
}

fn digit_of(d: u64) -> (c: char)
    requires
        d < 10,
    ensures
        c == digit_char(d as nat),
{
    if d == 0 {
        '0'
    } else if d == 1 {
        '1'
    } else if d == 2 {
        '2'
    } else if d == 3 {
        '3'
    } else if d == 4 {
        '4'
    } else if d == 5 {
        '5'
    } else if d == 6 {
        '6'
    } else if d == 7 {
        '7'
    } else if d == 8 {
        '8'
    } else {
        '9'
    }
}

/// Appends the decimal numeral of `n` to `out`.
pub fn push_decimal(out: &mut String, n: u64)
    ensures
        final(out)@ == old(out)@ + decimal(n as nat),
{
    // Digits from the least significant one upwards.
    let mut low: Vec<char> = Vec::new();
    let mut m: u64 = n;
    while m >= 10
        invariant
            decimal(n as nat) == decimal(m as nat) + low@.reverse(),
        decreases m,
    {
        let c = digit_of(m % 10);
        proof {
            let pushed = low@.push(c);
            assert(pushed.reverse() =~= seq![c] + low@.reverse());
            assert(decimal(m as nat) == decimal((m / 10) as nat).push(c));
            assert(decimal((m / 10) as nat).push(c) + low@.reverse()
                =~= decimal((m / 10) as nat) + pushed.reverse());
        }
        low.push(c);
        m = m / 10;
    }
    push_char(out, digit_of(m));
    let mut i: usize = low.len();
    while i > 0
        invariant
            i <= low@.len(),
            out@ == old(out)@ + decimal(m as nat) + low@.reverse().take(low@.len() - i),
        decreases i,
    {
        i -= 1;
        push_char(out, low[i]);
        assert(low@.reverse().take(low@.len() - (i + 1)).push(low@[i as int])
            =~= low@.reverse().take(low@.len() - i));
    }
    assert(low@.reverse().take(low@.len() as int) =~= low@.reverse());
    assert(old(out)@ + decimal(m as nat) + low@.reverse()
        =~= old(out)@ + (decimal(m as nat) + low@.reverse()));
}

/// The decimal numeral of `n` as a string.
pub fn decimal_string(n: u64) -> (r: String)
    ensures
        r@ == decimal(n as nat),
{
    let mut s = String::new();
    push_decimal(&mut s, n);
    assert(Seq::<char>::empty() + decimal(n as nat) =~= decimal(n as nat));
    s
}

/// Whether `c` is one of the ten ASCII digits.
pub open spec fn is_digit(c: char) -> bool {
    '0' <= c <= '9'
}

/// The value of an ASCII digit.
pub open spec fn digit_value(c: char) -> nat
    recommends
        is_digit(c),
{
    (c as u32 - '0' as u32) as nat
}

/// Whether every character of `s` is an ASCII digit.
pub open spec fn all_digits(s: Seq<char>) -> bool {
    forall|i: int| 0 <= i < s.len() ==> is_digit(#[trigger] s[i])
}

/// The number that a string of ASCII digits denotes in base ten.
pub open spec fn decimal_value(s: Seq<char>) -> nat
    decreases s.len(),
{
    if s.len() == 0 {
        0
    } else {
        decimal_value(s.drop_last()) * 10 + digit_value(s.last())
    }
}

/// What an unsigned 32-bit integer parser makes of `s`: an optional `+`,
/// then one or more ASCII digits whose value fits in 32 bits.
pub open spec fn parsed_u32(s: Seq<char>) -> Option<u32> {
    let body = if s.len() > 0 && s[0] == '+' {
        s.drop_first()
    } else {
        s
    };
    if body.len() > 0 && all_digits(body) && decimal_value(body) <= u32::MAX {
        Some(decimal_value(body) as u32)
    } else {
        None
    }
}

/// A longer numeral never denotes less than one of its prefixes.
pub proof fn lemma_decimal_value_prefix(s: Seq<char>, k: int)
    requires
        0 <= k <= s.len(),
    ensures
        decimal_value(s.take(k)) <= decimal_value(s),
    decreases s.len() - k,
{
    if k == s.len() {
        assert(s.take(k) =~= s);
    } else {
        lemma_decimal_value_prefix(s, k + 1);
        assert(s.take(k + 1).drop_last() =~= s.take(k));
    }
}

/// Parses `chars[from..to]` as an unsigned 32-bit decimal number.
pub fn parse_u32(chars: &Vec<char>, from: usize, to: usize) -> (r: Option<u32>)
    requires
        from <= to <= chars@.len(),
    ensures
        r == parsed_u32(chars@.subrange(from as int, to as int)),
{
    let ghost s = chars@.subrange(from as int, to as int);
    let start: usize = if from < to && chars[from] == '+' {
        from + 1
    } else {
        from
    };
    let ghost body = chars@.subrange(start as int, to as int);
    proof {
        if from < to && chars@[from as int] == '+' {
            assert(s[0] == '+');
            assert(s.drop_first() =~= body);
        } else {
            assert(s =~= body);
        }
    }
    if start == to {
        return None;
    }
    let ghost goal = parsed_u32(s);
    let mut value: u64 = 0;
    let mut i: usize = start;
    while i < to
        invariant
            from <= start <= i <= to <= chars@.len(),
            body == chars@.subrange(start as int, to as int),
            goal == parsed_u32(chars@.subrange(from as int, to as int)),
            goal == if all_digits(body) && decimal_value(body) <= u32::MAX {
                Some(decimal_value(body) as u32)
            } else {
                None
            },
            all_digits(body.take(i - start)),
            value == decimal_value(body.take(i - start)),
            value <= u32::MAX,
        decreases to - i,
    {
        let c = chars[i];
        if !(c >= '0' && c <= '9') {
            assert(body[i - start] == c);
            return None;
        }
        let d: u64 = (c as u32 - '0' as u32) as u64;
        let next: u64 = value * 10 + d;
        proof {
            let longer = body.take(i - start + 1);
            assert(longer.drop_last() =~= body.take(i - start));
            assert(longer.last() == c);
            assert(decimal_value(longer) == next);
            assert forall|j: int| 0 <= j < longer.len() implies is_digit(#[trigger] longer[j]) by {
                if j < i - start {
                    assert(body.take(i - start)[j] == longer[j]);
                }
            }
        }
        if next > 0xffff_ffff {
            proof {
                lemma_decimal_value_prefix(body, i - start + 1);
            }
            return None;
        }
        value = next;
        i += 1;
    }
    assert(body.take(to - start) =~= body);
    Some(value as u32)
}


/// Whether `needle` stands in `hay` at position `i`.
pub open spec fn occurs_at(hay: Seq<char>, needle: Seq<char>, i: int) -> bool {
    &&& 0 <= i
    &&& i + needle.len() <= hay.len()
    &&& hay.subrange(i, i + needle.len()) == needle
}

/// Whether `needle` stands somewhere in `hay`.
pub open spec fn contains_chars(hay: Seq<char>, needle: Seq<char>) -> bool {
    exists|i: int| occurs_at(hay, needle, i)
}

/// Whether `hay` ends with `needle`.
pub open spec fn ends_with_chars(hay: Seq<char>, needle: Seq<char>) -> bool {
    occurs_at(hay, needle, hay.len() - needle.len())
}

/// Tests whether `needle` stands in `hay` at position `i`.
pub fn matches_at(hay: &Vec<char>, needle: &Vec<char>, i: usize) -> (r: bool)
    ensures
        r == occurs_at(hay@, needle@, i as int),
{
    if needle.len() > hay.len() || i > hay.len() - needle.len() {
        return false;
    }
    let mut j: usize = 0;
    while j < needle.len()
        invariant
            j <= needle@.len(),
            i + needle@.len() <= hay@.len() <= usize::MAX,
            forall|k: int| 0 <= k < j ==> hay@[i + k] == needle@[k],
        decreases needle@.len() - j,
    {
        if hay[i + j] != needle[j] {
            assert(hay@.subrange(i as int, i + needle@.len())[j as int] == hay@[i + j]);
            return false;
        }
        j += 1;
    }
    assert(hay@.subrange(i as int, i + needle@.len()) =~= needle@);
    true
}

/// Tests whether `needle` stands somewhere in `hay`.
pub fn find_chars(hay: &Vec<char>, needle: &Vec<char>) -> (r: bool)
    ensures
        r == contains_chars(hay@, needle@),
{
    if needle.len() > hay.len() {
        return false;
    }
    let last: usize = hay.len() - needle.len();
    let mut i: usize = 0;
    while i < last
        invariant
            i <= last,
            last == hay@.len() - needle@.len(),
            forall|k: int| 0 <= k < i ==> !occurs_at(hay@, needle@, k),
        decreases last - i,
    {
        if matches_at(hay, needle, i) {
            return true;
        }
        i += 1;
    }
    matches_at(hay, needle, last)
}

/// Tests whether `hay` ends with `needle`.
pub fn ends_with(hay: &Vec<char>, needle: &Vec<char>) -> (r: bool)
    ensures
        r == ends_with_chars(hay@, needle@),
{
    if needle.len() > hay.len() {
        return false;
    }
    matches_at(hay, needle, hay.len() - needle.len())
}

/// Tests whether two character vectors hold the same characters.
pub fn same_chars(a: &Vec<char>, b: &Vec<char>) -> (r: bool)
    ensures
        r == (a@ == b@),
{
    if a.len() != b.len() {
        return false;
    }
    let r = matches_at(a, b, 0);
    assert(a@.subrange(0, a@.len() as int) =~= a@);
    r
}

/// The first position in `s[from..to)` that holds `c`, if there is one.
pub open spec fn first_index_of(s: Seq<char>, c: char, from: int, to: int) -> Option<int>
    decreases to - from,
{
    if from >= to {
        None
    } else if s[from] == c {
        Some(from)
    } else {
        first_index_of(s, c, from + 1, to)
    }
}

/// Finds the first position in `chars[from..to)` that holds `c`.
pub fn find_char(chars: &Vec<char>, c: char, from: usize, to: usize) -> (r: Option<usize>)
    requires
        from <= to <= chars@.len(),
    ensures
        match r {
            Some(i) => first_index_of(chars@, c, from as int, to as int) == Some(i as int)
                && from <= i < to && chars@[i as int] == c,
            None => first_index_of(chars@, c, from as int, to as int) is None,
        },
{
    let mut i: usize = from;
    while i < to
        invariant
            from <= i <= to <= chars@.len(),
            first_index_of(chars@, c, from as int, to as int) == first_index_of(
                chars@,
                c,
                i as int,
                to as int,
            ),
        decreases to - i,
    {
        if chars[i] == c {
            return Some(i);
        }
        i += 1;
    }
    None
}

/// The last position of `s` that holds `c`, if there is one.
pub open spec fn last_index_of(s: Seq<char>, c: char) -> Option<int>
    decreases s.len(),
{
    if s.len() == 0 {
        None
    } else if s.last() == c {
        Some(s.len() - 1)
    } else {
        last_index_of(s.drop_last(), c)
    }
}

/// Finds the last position of `chars` that holds `c`.
pub fn rfind_char(chars: &Vec<char>, c: char) -> (r: Option<usize>)
    ensures
        match r {
            Some(i) => last_index_of(chars@, c) == Some(i as int) && i < chars@.len(),
            None => last_index_of(chars@, c) is None,
        },
{
    let mut i: usize = chars.len();
    assert(chars@.take(i as int) =~= chars@);
    while i > 0
        invariant
            i <= chars@.len(),
            last_index_of(chars@, c) == last_index_of(chars@.take(i as int), c),
        decreases i,
    {
        i -= 1;
        assert(chars@.take(i + 1).last() == chars@[i as int]);
        assert(chars@.take(i + 1).drop_last() =~= chars@.take(i as int));
        if chars[i] == c {
            return Some(i);
        }
    }
    None
}

/// Whether `c` is white space: the characters that Unicode marks as such.
pub open spec fn is_whitespace(c: char) -> bool {
    ||| c == ' '
    ||| '\u{9}' <= c <= '\u{d}'
    ||| c == '\u{85}'
    ||| c == '\u{a0}'
    ||| c == '\u{1680}'
    ||| '\u{2000}' <= c <= '\u{200a}'
    ||| c == '\u{2028}'
    ||| c == '\u{2029}'
    ||| c == '\u{202f}'
    ||| c == '\u{205f}'
    ||| c == '\u{3000}'
}

/// Tests whether `c` is white space.
pub fn is_space(c: char) -> (r: bool)
    ensures
        r == is_whitespace(c),
{
    c == ' ' || ('\u{9}' <= c && c <= '\u{d}') || c == '\u{85}' || c == '\u{a0}' || c
        == '\u{1680}' || ('\u{2000}' <= c && c <= '\u{200a}') || c == '\u{2028}' || c
        == '\u{2029}' || c == '\u{202f}' || c == '\u{205f}' || c == '\u{3000}'
}

/// The words of `s` from position `i` on, as half-open index ranges, where a
/// word that began at `cur` is still open (`cur == i` when none is).
pub open spec fn word_spans_from(s: Seq<char>, i: int, cur: int) -> Seq<(usize, usize)>
    decreases s.len() - i,
{
    let done = if cur < i {
        seq![(cur as usize, i as usize)]
    } else {
        seq![]
    };
    if i >= s.len() {
        done
    } else if is_whitespace(s[i]) {
        done + word_spans_from(s, i + 1, i + 1)
    } else {
        word_spans_from(s, i + 1, cur)
    }
}

/// The maximal runs of characters of `s` that hold no white space, in order,
/// each as the half-open range of its positions.
pub open spec fn word_spans(s: Seq<char>) -> Seq<(usize, usize)> {
    word_spans_from(s, 0, 0)
}

/// Splits `chars` into its words, each given as a range of positions.
pub fn split_words(chars: &Vec<char>) -> (r: Vec<(usize, usize)>)
    ensures
        r@ == word_spans(chars@),
        forall|k: int| 0 <= k < r@.len() ==> (#[trigger] r@[k]).0 < r@[k].1 <= chars@.len(),
{
    let mut out: Vec<(usize, usize)> = Vec::new();
    let mut cur: usize = 0;
    let mut i: usize = 0;
    while i < chars.len()
        invariant
            cur <= i <= chars@.len(),
            word_spans(chars@) == out@ + word_spans_from(chars@, i as int, cur as int),
            forall|k: int| 0 <= k < out@.len() ==> (#[trigger] out@[k]).0 < out@[k].1 <= chars@.len(),
        decreases chars@.len() - i,
    {
        if is_space(chars[i]) {
            if cur < i {
                proof {
                    assert(out@.push((cur, i)) + word_spans_from(chars@, i + 1, i + 1) =~= out@ + (
                    seq![(cur, i)] + word_spans_from(chars@, i + 1, i + 1)));
                }
                out.push((cur, i));
            } else {
                assert(Seq::<(usize, usize)>::empty() + word_spans_from(chars@, i + 1, i + 1)
                    =~= word_spans_from(chars@, i + 1, i + 1));
            }
            cur = i + 1;
        }
        i += 1;
    }
    if cur < i {
        out.push((cur, i));
    }
    assert(word_spans(chars@) =~= out@);
    out
}


/// `s` with every occurrence of `from` replaced by `to`, found from the
/// left, none overlapping another.  An empty `from` occurs nowhere.
pub open spec fn replaced(s: Seq<char>, from: Seq<char>, to: Seq<char>) -> Seq<char>
    decreases s.len(),
{
    if from.len() == 0 || s.len() < from.len() {
        s
    } else if occurs_at(s, from, 0) {
        to + replaced(s.skip(from.len() as int), from, to)
    } else {
        seq![s[0]] + replaced(s.skip(1), from, to)
    }
}

/// Appends to `out` the characters of `hay` with every occurrence of `from`
/// replaced by `to`.
pub fn push_replaced(out: &mut String, hay: &Vec<char>, from: &Vec<char>, to: &Vec<char>)
    ensures
        final(out)@ == old(out)@ + replaced(hay@, from@, to@),
{
    if from.len() == 0 {
        push_chars(out, hay, 0, hay.len());
        assert(hay@.subrange(0, hay@.len() as int) =~= hay@);
        return ;
    }
    let mut i: usize = 0;
    assert(hay@.skip(0) =~= hay@);
    while i < hay.len()
        invariant
            i <= hay@.len(),
            from@.len() > 0,
            old(out)@ + replaced(hay@, from@, to@) == out@ + replaced(hay@.skip(i as int), from@, to@),
        decreases hay@.len() - i,
    {
        let ghost rest = hay@.skip(i as int);
        let ghost before = out@;
        if matches_at(hay, from, i) {
            proof {
                assert(rest.subrange(0, from@.len() as int) =~= hay@.subrange(
                    i as int,
                    i + from@.len(),
                ));
                assert(occurs_at(rest, from@, 0));
                assert(rest.skip(from@.len() as int) =~= hay@.skip(i + from@.len()));
            }
            push_chars(out, to, 0, to.len());
            proof {
                assert(to@.subrange(0, to@.len() as int) =~= to@);
                assert(before + (to@ + replaced(rest.skip(from@.len() as int), from@, to@)) =~= (
                before + to@) + replaced(rest.skip(from@.len() as int), from@, to@));
            }
            i += from.len();
        } else {
            proof {
                if rest.len() >= from@.len() {
                    if occurs_at(rest, from@, 0) {
                        assert(rest.subrange(0, from@.len() as int) =~= hay@.subrange(
                            i as int,
                            i + from@.len(),
                        ));
                    }
                    assert(rest.skip(1) =~= hay@.skip(i + 1));
                    assert(rest[0] == hay@[i as int]);
                    assert(before + (seq![rest[0]] + replaced(rest.skip(1), from@, to@)) =~= before.push(
                        hay@[i as int],
                    ) + replaced(rest.skip(1), from@, to@));
                }
            }
            if hay.len() - i < from.len() {
                // What is left is shorter than `from`: it stays as it is.
                push_chars(out, hay, i, hay.len());
                proof {
                    assert(hay@.subrange(i as int, hay@.len() as int) =~= rest);
                    assert(hay@.skip(hay@.len() as int) =~= Seq::<char>::empty());
                    assert(before + rest =~= (before + rest) + replaced(
                        Seq::<char>::empty(),
                        from@,
                        to@,
                    ));
                }
                i = hay.len();
            } else {
                push_char(out, hay[i]);
                i += 1;
            }
        }
    }
    assert(hay@.skip(hay@.len() as int) =~= Seq::<char>::empty());
    assert(out@ + Seq::<char>::empty() =~= out@);
}

} // verus!
