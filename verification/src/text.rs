//! Characters and character sequences: whitespace, decimal digits, trimming
//! and zero padding.
//!
//! Every executable function here is specified over the `Seq<char>` view of
//! its text, so the rest of the library reasons about plain sequences.

use vstd::prelude::*;

verus! {

/// Whether `c` has the Unicode property `White_Space`: the ASCII space and the
/// control characters tab to carriage return, next line, the no-break spaces,
/// the spaces of the general punctuation block, the two separators, and the
/// ideographic space.
pub open spec fn is_whitespace(c: char) -> bool {
    let u = c as u32;
    ||| 0x09 <= u <= 0x0D
    ||| u == 0x20
    ||| u == 0x85
    ||| u == 0xA0
    ||| u == 0x1680
    ||| 0x2000 <= u <= 0x200A
    ||| u == 0x2028
    ||| u == 0x2029
    ||| u == 0x202F
    ||| u == 0x205F
    ||| u == 0x3000
}

/// Whether `c` is one of the ten decimal digits `'0'` to `'9'`.
pub open spec fn is_digit(c: char) -> bool {
    '0' <= c <= '9'
}

/// The number that the decimal digit `c` stands for.
pub open spec fn digit_value(c: char) -> nat
    recommends
        is_digit(c),
{
    (c as u32 - '0' as u32) as nat
}

/// The value of `c` if it is a decimal digit, and nothing otherwise.
pub open spec fn decimal_digit(c: char) -> Option<nat> {
    if is_digit(c) {
        Some(digit_value(c))
    } else {
        None
    }
}

/// Whether every character of `s` is whitespace.
pub open spec fn all_whitespace(s: Seq<char>) -> bool {
    forall|i: int| 0 <= i < s.len() ==> is_whitespace(#[trigger] s[i])
}

/// Whether every character of `s` is a decimal digit.
pub open spec fn all_digits(s: Seq<char>) -> bool {
    forall|i: int| 0 <= i < s.len() ==> is_digit(#[trigger] s[i])
}

/// `s` without its leading whitespace.
pub open spec fn trimmed_start(s: Seq<char>) -> Seq<char>
    decreases s.len(),
{
    if s.len() > 0 && is_whitespace(s.first()) {
        trimmed_start(s.drop_first())
    } else {
        s
    }
}

/// `s` without its trailing whitespace.
pub open spec fn trimmed_end(s: Seq<char>) -> Seq<char>
    decreases s.len(),
{
    if s.len() > 0 && is_whitespace(s.last()) {
        trimmed_end(s.drop_last())
    } else {
        s
    }
}

/// `s` without its leading and trailing whitespace.
pub open spec fn trimmed(s: Seq<char>) -> Seq<char> {
    trimmed_end(trimmed_start(s))
}

/// `n` times the character `'0'`.
pub open spec fn zeros(n: nat) -> Seq<char> {
    Seq::new(n, |i: int| '0')
}

/// `s` with as many `'0'` in front as it takes to reach `width` characters.
/// A sequence that is already that long is left as it is.
pub open spec fn zero_padded(s: Seq<char>, width: nat) -> Seq<char> {
    if s.len() >= width {
        s
    } else {
        zeros((width - s.len()) as nat) + s
    }
}

/// The values of the decimal digits of `s`, in order. Characters that are not
/// decimal digits are passed over.
pub open spec fn digits_of(s: Seq<char>) -> Seq<nat> {
    s.filter_map(|c: char| decimal_digit(c))
}

/// The number that a text of decimal digits writes, the first digit being
/// the most significant.
pub open spec fn decimal_value(s: Seq<char>) -> nat
    recommends
        all_digits(s),
    decreases s.len(),
{
    if s.len() == 0 {
        0
    } else {
        decimal_value(s.drop_last()) * 10 + digit_value(s.last())
    }
}

/// The numbers that a sequence of bytes stands for.
pub open spec fn values_of(d: Seq<u8>) -> Seq<nat> {
    Seq::new(d.len(), |i: int| d[i] as nat)
}

/// Leading whitespace up to the first other character is all that
/// `trimmed_start` removes.
pub proof fn lemma_trimmed_start_from(s: Seq<char>, a: int)
    requires
        0 <= a <= s.len(),
        forall|i: int| 0 <= i < a ==> is_whitespace(#[trigger] s[i]),
        a == s.len() || !is_whitespace(s[a]),
    ensures
        trimmed_start(s) == s.subrange(a, s.len() as int),
    decreases a,
{
    if a == 0 {
        assert(s.subrange(0, s.len() as int) =~= s);
    } else {
        let rest = s.drop_first();
        assert forall|i: int| 0 <= i < a - 1 implies is_whitespace(#[trigger] rest[i]) by {
            assert(rest[i] == s[i + 1]);
        }
        lemma_trimmed_start_from(rest, a - 1);
        assert(rest.subrange(a - 1, rest.len() as int) =~= s.subrange(a, s.len() as int));
    }
}

/// Trailing whitespace back to the last other character is all that
/// `trimmed_end` removes.
pub proof fn lemma_trimmed_end_to(s: Seq<char>, b: int)
    requires
        0 <= b <= s.len(),
        forall|i: int| b <= i < s.len() ==> is_whitespace(#[trigger] s[i]),
        b == 0 || !is_whitespace(s[b - 1]),
    ensures
        trimmed_end(s) == s.subrange(0, b),
    decreases s.len() - b,
{
    if b == s.len() {
        assert(s.subrange(0, b) =~= s);
    } else {
        let rest = s.drop_last();
        assert forall|i: int| b <= i < rest.len() implies is_whitespace(#[trigger] rest[i]) by {
            assert(rest[i] == s[i]);
        }
        lemma_trimmed_end_to(rest, b);
        assert(rest.subrange(0, b) =~= s.subrange(0, b));
    }
}

/// What `trimmed_start` leaves is a suffix of `s` that does not begin with
/// whitespace, and all that it removed is whitespace.
pub proof fn lemma_trimmed_start_shape(s: Seq<char>)
    ensures
        trimmed_start(s).len() <= s.len(),
        trimmed_start(s) == s.subrange(s.len() - trimmed_start(s).len(), s.len() as int),
        all_whitespace(s.subrange(0, s.len() - trimmed_start(s).len())),
        trimmed_start(s).len() > 0 ==> !is_whitespace(trimmed_start(s).first()),
    decreases s.len(),
{
    if s.len() > 0 && is_whitespace(s.first()) {
        let rest = s.drop_first();
        lemma_trimmed_start_shape(rest);
        let k = rest.len() - trimmed_start(rest).len();
        assert(rest.subrange(k, rest.len() as int) =~= s.subrange(k + 1, s.len() as int));
        assert forall|i: int| 0 <= i < k + 1 implies is_whitespace(
            #[trigger] s.subrange(0, k + 1)[i],
        ) by {
            if i > 0 {
                assert(s.subrange(0, k + 1)[i] == rest.subrange(0, k)[i - 1]);
            }
        }
    } else {
        assert(s.subrange(0, s.len() as int) =~= s);
    }
}

/// What `trimmed_end` leaves is a prefix of `s` that does not end in
/// whitespace, and all that it removed is whitespace.
pub proof fn lemma_trimmed_end_shape(s: Seq<char>)
    ensures
        trimmed_end(s).len() <= s.len(),
        trimmed_end(s) == s.subrange(0, trimmed_end(s).len() as int),
        all_whitespace(s.subrange(trimmed_end(s).len() as int, s.len() as int)),
        trimmed_end(s).len() > 0 ==> !is_whitespace(trimmed_end(s).last()),
    decreases s.len(),
{
    if s.len() > 0 && is_whitespace(s.last()) {
        let rest = s.drop_last();
        lemma_trimmed_end_shape(rest);
        let k = trimmed_end(rest).len() as int;
        assert(rest.subrange(0, k) =~= s.subrange(0, k));
        assert forall|i: int| 0 <= i < s.len() - k implies is_whitespace(
            #[trigger] s.subrange(k, s.len() as int)[i],
        ) by {
            if i < rest.len() - k {
                assert(s.subrange(k, s.len() as int)[i] == rest.subrange(k, rest.len() as int)[i]);
            }
        }
    } else {
        assert(s.subrange(0, s.len() as int) =~= s);
    }
}

/// A trimmed sequence neither begins nor ends with whitespace.
pub proof fn lemma_trimmed_ends(s: Seq<char>)
    ensures
        trimmed(s).len() <= s.len(),
        trimmed(s).len() > 0 ==> !is_whitespace(trimmed(s).first()) && !is_whitespace(
            trimmed(s).last(),
        ),
{
    let t = trimmed_start(s);
    lemma_trimmed_start_shape(s);
    lemma_trimmed_end_shape(t);
    if trimmed(s).len() > 0 {
        assert(trimmed(s).first() == t.subrange(0, trimmed_end(t).len() as int)[0]);
    }
}

/// A sequence that neither begins nor ends with whitespace is its own trimmed
/// form.
pub proof fn lemma_trimmed_fixed(s: Seq<char>)
    requires
        s.len() > 0 ==> !is_whitespace(s.first()) && !is_whitespace(s.last()),
    ensures
        trimmed(s) == s,
{
}

/// Whitespace in front of a sequence does not change what `trimmed_start`
/// leaves of it.
pub proof fn lemma_trimmed_start_skips_prefix(w: Seq<char>, s: Seq<char>)
    requires
        all_whitespace(w),
    ensures
        trimmed_start(w + s) == trimmed_start(s),
    decreases w.len(),
{
    if w.len() == 0 {
        assert(w + s =~= s);
    } else {
        let rest = w.drop_first();
        assert((w + s).first() == w[0]);
        assert((w + s).drop_first() =~= rest + s);
        assert forall|i: int| 0 <= i < rest.len() implies is_whitespace(#[trigger] rest[i]) by {
            assert(rest[i] == w[i + 1]);
        }
        lemma_trimmed_start_skips_prefix(rest, s);
    }
}

/// Whitespace behind a sequence does not change what `trimmed_end` leaves of
/// it.
pub proof fn lemma_trimmed_end_skips_suffix(s: Seq<char>, w: Seq<char>)
    requires
        all_whitespace(w),
    ensures
        trimmed_end(s + w) == trimmed_end(s),
    decreases w.len(),
{
    if w.len() == 0 {
        assert(s + w =~= s);
    } else {
        let rest = w.drop_last();
        assert((s + w).last() == w[w.len() - 1]);
        assert((s + w).drop_last() =~= s + rest);
        assert forall|i: int| 0 <= i < rest.len() implies is_whitespace(#[trigger] rest[i]) by {
            assert(rest[i] == w[i]);
        }
        lemma_trimmed_end_skips_suffix(s, rest);
    }
}

/// Whitespace behind a sequence stays behind what `trimmed_start` leaves of
/// it, unless nothing is left.
pub proof fn lemma_trimmed_start_keeps_suffix(s: Seq<char>, w: Seq<char>)
    requires
        all_whitespace(w),
    ensures
        trimmed_start(s).len() > 0 ==> trimmed_start(s + w) == trimmed_start(s) + w,
        trimmed_start(s).len() == 0 ==> trimmed_start(s + w).len() == 0,
    decreases s.len(),
{
    if s.len() == 0 {
        lemma_trimmed_start_skips_prefix(w, s);
        assert(w + s =~= s + w);
    } else if is_whitespace(s.first()) {
        assert((s + w).first() == s[0]);
        assert((s + w).drop_first() =~= s.drop_first() + w);
        lemma_trimmed_start_keeps_suffix(s.drop_first(), w);
    } else {
        assert((s + w).first() == s[0]);
    }
}

/// Whitespace around a sequence does not change its trimmed form.
pub proof fn lemma_trimmed_ignores_surrounding(before: Seq<char>, s: Seq<char>, after: Seq<char>)
    requires
        all_whitespace(before),
        all_whitespace(after),
    ensures
        trimmed(before + s + after) == trimmed(s),
{
    assert(before + s + after =~= before + (s + after));
    lemma_trimmed_start_skips_prefix(before, s + after);
    lemma_trimmed_start_keeps_suffix(s, after);
    if trimmed_start(s).len() > 0 {
        lemma_trimmed_end_skips_suffix(trimmed_start(s), after);
    } else {
        assert(trimmed_start(s + after) =~= trimmed_start(s));
    }
}

/// No more digits are read than there are characters; as many are read
/// exactly where every character is a digit, and then each digit is read in
/// its own place.
pub proof fn lemma_digits_of_len(s: Seq<char>)
    ensures
        digits_of(s).len() <= s.len(),
        digits_of(s).len() == s.len() <==> all_digits(s),
        all_digits(s) ==> forall|i: int|
            0 <= i < s.len() ==> #[trigger] digits_of(s)[i] == digit_value(s[i]),
        forall|i: int| 0 <= i < digits_of(s).len() ==> #[trigger] digits_of(s)[i] <= 9,
    decreases s.len(),
{
    if s.len() > 0 {
        let rest = s.drop_last();
        lemma_digits_of_len(rest);
        if all_digits(s) {
            assert forall|i: int| 0 <= i < rest.len() implies is_digit(#[trigger] rest[i]) by {
                assert(rest[i] == s[i]);
            }
            assert(is_digit(s[s.len() - 1]));
        }
        if digits_of(s).len() == s.len() {
            assert forall|i: int| 0 <= i < s.len() implies is_digit(#[trigger] s[i]) by {
                if i < rest.len() {
                    assert(rest[i] == s[i]);
                }
            }
        }
    }
}

/// Tells whether a character is Unicode whitespace.
pub fn char_is_whitespace(c: char) -> (b: bool)
    ensures
        b == is_whitespace(c),
{
    let u: u32 = c as u32;
    (0x09 <= u && u <= 0x0D) || u == 0x20 || u == 0x85 || u == 0xA0 || u == 0x1680 || (0x2000 <= u
        && u <= 0x200A) || u == 0x2028 || u == 0x2029 || u == 0x202F || u == 0x205F || u == 0x3000
}

/// The value of a decimal digit, or `None` for any other character.
pub fn char_to_digit(c: char) -> (d: Option<u8>)
    ensures
        d is Some <==> is_digit(c),
        d is Some ==> d->0 as nat == digit_value(c),
        d is Some ==> d->0 <= 9,
{
    if '0' <= c && c <= '9' {
        let u: u32 = c as u32;
        Some((u - 48) as u8)
    } else {
        None
    }
}

/// The characters of a string slice, in order.
pub fn to_chars(s: &str) -> (v: Vec<char>)
    ensures
        v@ == s@,
{
    let mut v: Vec<char> = Vec::new();
    for c in it: s.chars()
        invariant
            it.seq() == s@,
            v@ == it.seq().take(it.index() as int),
    {
        v.push(c);
    }
    v
}

/// The part of `s` between its leading and its trailing whitespace.
pub fn trim(s: &str) -> (t: &str)
    ensures
        t@ == trimmed(s@),
{
    let chars = to_chars(s);
    let n: usize = chars.len();
    let mut start: usize = 0;
    while start < n && char_is_whitespace(chars[start])
        invariant
            start <= n == chars@.len(),
            forall|i: int| 0 <= i < start ==> is_whitespace(#[trigger] chars@[i]),
        decreases n - start,
    {
        start += 1;
    }
    let mut end: usize = n;
    while end > start && char_is_whitespace(chars[end - 1])
        invariant
            start <= end <= n == chars@.len(),
            forall|i: int| end <= i < n ==> is_whitespace(#[trigger] chars@[i]),
        decreases end,
    {
        end -= 1;
    }
    proof {
        let rest = s@.subrange(start as int, n as int);
        lemma_trimmed_start_from(s@, start as int);
        assert forall|i: int| end - start <= i < rest.len() implies is_whitespace(
            #[trigger] rest[i],
        ) by {
            assert(rest[i] == chars@[i + start]);
        }
        lemma_trimmed_end_to(rest, end - start);
        assert(rest.subrange(0, end - start) =~= s@.subrange(start as int, end as int));
    }
    s.substring_char(start, end)
}

/// `s` with zeros in front, so that it has at least `width` characters.
pub fn pad_zeros(s: &str, width: usize) -> (padded: String)
    ensures
        padded@ == zero_padded(s@, width as nat),
{
    let n: usize = s.unicode_len();
    let mut padded = String::new();
    let mut len: usize = n;
    while len < width
        invariant
            n <= len,
            len <= width || len == n,
            padded@ == zeros((len - n) as nat),
        decreases width - len,
    {
        proof {
            reveal_strlit("0");
            assert(zeros((len - n) as nat) + "0"@ =~= zeros((len + 1 - n) as nat));
        }
        padded.append("0");
        len += 1;
    }
    let ghost front = padded@;
    padded.append(s);
    proof {
        if n >= width {
            assert(front + s@ =~= s@);
        }
    }
    padded
}

/// The values of the decimal digits in `s`, in order; other characters are
/// dropped.
pub fn extract_digits(s: &str) -> (digits: Vec<u8>)
    ensures
        values_of(digits@) == digits_of(s@),
{
    let mut digits: Vec<u8> = Vec::new();
    for c in it: s.chars()
        invariant
            it.seq() == s@,
            values_of(digits@) == digits_of(s@.take(it.index() as int)),
    {
        proof {
            s@.lemma_filter_map_take_succ(|c: char| decimal_digit(c), it.index() as int);
        }
        let ghost before = digits@;
        match char_to_digit(c) {
            Some(d) => {
                digits.push(d);
                assert(values_of(digits@) =~= values_of(before) + seq![d as nat]);
            },
            None => {},
        }
    }
    assert(s@.take(s@.len() as int) =~= s@);
    digits
}

} // verus!
