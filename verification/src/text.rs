//! Conversions between strings and character sequences, and the small
//! predicates on characters that the parsers of this crate share.

use vstd::prelude::*;
use vstd::string::StringSliceAdditionalSpecFns;
use vstd::utf8::valid_utf8;

verus! {

/// `String::push` appends one character at the end of the string.
pub assume_specification[ String::push ](s: &mut String, ch: char)
    ensures
        final(s)@ == old(s)@.push(ch),
;

/// `std::str::from_utf8`: the text that the bytes are the UTF-8 form of,
/// where they are the UTF-8 form of a text.
#[verifier::external_body]
pub(crate) fn utf8_text(bytes: &[u8]) -> (r: Option<&str>)
    ensures
        match r {
            Some(text) => valid_utf8(bytes@) && text.spec_bytes() == bytes@,
            None => !valid_utf8(bytes@),
        },
{
    std::str::from_utf8(bytes).ok()
}

/// The characters of `s`, in order.
pub fn chars_of(s: &str) -> (out: Vec<char>)
    ensures
        out@ == s@,
{
    let mut out: Vec<char> = Vec::new();
    for c in it: s.chars()
        invariant
            it.seq() == s@,
            out@ == it.seq().take(it.index() as int),
    {
        out.push(c);
    }
    out
}

/// The string made of `chars[from..to]`.
pub fn string_of(chars: &[char], from: usize, to: usize) -> (out: String)
    requires
        from <= to <= chars@.len(),
    ensures
        out@ == chars@.subrange(from as int, to as int),
{
    let mut out = String::new();
    let mut i: usize = from;
    while i < to
        invariant
            from <= i <= to <= chars@.len(),
            out@ == chars@.subrange(from as int, i as int),
        decreases to - i,
    {
        out.push(chars[i]);
        i += 1;
    }
    out
}

/// Whether two strings hold the same characters.
pub fn same_text(a: &str, b: &str) -> (r: bool)
    ensures
        r == (a@ == b@),
{
    let x = chars_of(a);
    let y = chars_of(b);
    same_chars(&x, &y)
}

/// Whether two character slices are equal.
pub fn same_chars(a: &[char], b: &[char]) -> (r: bool)
    ensures
        r == (a@ == b@),
{
    if a.len() != b.len() {
        return false;
    }
    let mut i: usize = 0;
    while i < a.len()
        invariant
            a@.len() == b@.len(),
            i <= a@.len(),
            a@.take(i as int) == b@.take(i as int),
        decreases a@.len() - i,
    {
        if a[i] != b[i] {
            return false;
        }
        proof {
            assert(a@.take(i + 1) == a@.take(i as int).push(a@[i as int]));
            assert(b@.take(i + 1) == b@.take(i as int).push(b@[i as int]));
        }
        i += 1;
    }
    proof {
        assert(a@.take(a@.len() as int) == a@);
        assert(b@.take(b@.len() as int) == b@);
    }
    true
}

/// The position of the first `c` in `s`, or the length of `s` where `c`
/// does not occur.
pub open spec fn first_index_of(s: Seq<char>, c: char) -> int
    decreases s.len(),
{
    if s.len() == 0 {
        0
    } else if s[0] == c {
        0
    } else {
        1 + first_index_of(s.drop_first(), c)
    }
}

/// The position of the last `c` in `s`, or -1 where `c` does not occur.
pub open spec fn last_index_of(s: Seq<char>, c: char) -> int
    decreases s.len(),
{
    if s.len() == 0 {
        -1
    } else if s.last() == c {
        s.len() - 1
    } else {
        last_index_of(s.drop_last(), c)
    }
}

/// `first_index_of` is the least position that holds `c`.
pub proof fn lemma_first_index_of(s: Seq<char>, c: char)
    ensures
        0 <= first_index_of(s, c) <= s.len(),
        first_index_of(s, c) < s.len() ==> s[first_index_of(s, c)] == c,
        forall|j: int| 0 <= j < first_index_of(s, c) ==> s[j] != c,
        s.contains(c) <==> first_index_of(s, c) < s.len(),
    decreases s.len(),
{
    if s.len() == 0 {
    } else if s[0] == c {
    } else {
        let t = s.drop_first();
        lemma_first_index_of(t, c);
        assert forall|j: int| 0 <= j < first_index_of(s, c) implies s[j] != c by {
            if j > 0 {
                assert(s[j] == t[j - 1]);
            }
        }
        if first_index_of(t, c) < t.len() {
            assert(s[first_index_of(s, c)] == t[first_index_of(t, c)]);
        }
        if s.contains(c) {
            let k = choose|k: int| 0 <= k < s.len() && s[k] == c;
            assert(t[k - 1] == c);
        }
    }
}

/// `last_index_of` is the greatest position that holds `c`.
pub proof fn lemma_last_index_of(s: Seq<char>, c: char)
    ensures
        -1 <= last_index_of(s, c) < s.len(),
        last_index_of(s, c) >= 0 ==> s[last_index_of(s, c)] == c,
        forall|j: int| last_index_of(s, c) < j < s.len() ==> s[j] != c,
        s.contains(c) <==> last_index_of(s, c) >= 0,
    decreases s.len(),
{
    if s.len() == 0 {
    } else if s.last() == c {
    } else {
        let t = s.drop_last();
        lemma_last_index_of(t, c);
        assert forall|j: int| last_index_of(s, c) < j < s.len() implies s[j] != c by {
            if j < s.len() - 1 {
                assert(s[j] == t[j]);
            }
        }
        if last_index_of(t, c) >= 0 {
            assert(s[last_index_of(s, c)] == t[last_index_of(t, c)]);
        }
        if s.contains(c) {
            let k = choose|k: int| 0 <= k < s.len() && s[k] == c;
            assert(t[k] == c);
        }
    }
}

/// A position that holds `c` with no `c` before it is `first_index_of`.
pub proof fn lemma_first_index_is(s: Seq<char>, c: char, i: int)
    requires
        0 <= i <= s.len(),
        i < s.len() ==> s[i] == c,
        forall|j: int| 0 <= j < i ==> s[j] != c,
    ensures
        first_index_of(s, c) == i,
{
    lemma_first_index_of(s, c);
    let f = first_index_of(s, c);
    if f < i {
        assert(s[f] != c);
    }
}

/// A position that holds `c` with no `c` after it is `last_index_of`.
pub proof fn lemma_last_index_is(s: Seq<char>, c: char, i: int)
    requires
        -1 <= i < s.len(),
        i >= 0 ==> s[i] == c,
        forall|j: int| i < j < s.len() ==> s[j] != c,
    ensures
        last_index_of(s, c) == i,
{
    lemma_last_index_of(s, c);
    let l = last_index_of(s, c);
    if l > i {
        assert(s[l] != c);
    }
}

/// Finds the first `c` in `chars[from..to]`; the result is a position in
/// `chars`, or `to` where there is none.
pub fn find_char(chars: &[char], from: usize, to: usize, c: char) -> (i: usize)
    requires
        from <= to <= chars@.len(),
    ensures
        i == from + first_index_of(chars@.subrange(from as int, to as int), c),
        from <= i <= to,
{
    let mut i: usize = from;
    while i < to && chars[i] != c
        invariant
            from <= i <= to <= chars@.len(),
            forall|j: int| from <= j < i ==> chars@[j] != c,
        decreases to - i,
    {
        i += 1;
    }
    proof {
        let s = chars@.subrange(from as int, to as int);
        assert forall|j: int| 0 <= j < i - from implies s[j] != c by {
            assert(s[j] == chars@[from + j]);
        }
        lemma_first_index_is(s, c, i - from);
    }
    i
}

/// Finds the last `c` in `chars[from..to]`; the result is a position in
/// `chars`, or `None` where there is none.
pub fn rfind_char(chars: &[char], from: usize, to: usize, c: char) -> (r: Option<usize>)
    requires
        from <= to <= chars@.len(),
    ensures
        match r {
            Some(i) => i == from + last_index_of(chars@.subrange(from as int, to as int), c)
                && from <= i < to,
            None => last_index_of(chars@.subrange(from as int, to as int), c) == -1,
        },
{
    let mut i: usize = to;
    while i > from && chars[i - 1] != c
        invariant
            from <= i <= to <= chars@.len(),
            forall|j: int| i <= j < to ==> chars@[j] != c,
        decreases i,
    {
        i -= 1;
    }
    proof {
        let s = chars@.subrange(from as int, to as int);
        assert forall|j: int| i - from - 1 < j < s.len() implies s[j] != c by {
            assert(s[j] == chars@[from + j]);
        }
        lemma_last_index_is(s, c, i - from - 1);
    }
    if i > from {
        Some(i - 1)
    } else {
        None
    }
}

/// How many times `c` stands at the start of `s` before another character.
pub open spec fn leading(s: Seq<char>, c: char) -> int
    decreases s.len(),
{
    if s.len() > 0 && s[0] == c {
        1 + leading(s.drop_first(), c)
    } else {
        0
    }
}

/// How many times `c` stands at the end of `s` after another character.
pub open spec fn trailing(s: Seq<char>, c: char) -> int
    decreases s.len(),
{
    if s.len() > 0 && s.last() == c {
        1 + trailing(s.drop_last(), c)
    } else {
        0
    }
}

/// `s` without the `c`s at its start and at its end.
pub open spec fn trim_char(s: Seq<char>, c: char) -> Seq<char> {
    if leading(s, c) == s.len() {
        Seq::empty()
    } else {
        s.subrange(leading(s, c), s.len() - trailing(s, c))
    }
}

/// `leading` counts a run of `c` that ends the sequence or is followed by
/// another character.
pub proof fn lemma_leading(s: Seq<char>, c: char, n: int)
    requires
        0 <= n <= s.len(),
        forall|j: int| 0 <= j < n ==> s[j] == c,
        n < s.len() ==> s[n] != c,
    ensures
        leading(s, c) == n,
    decreases n,
{
    if n > 0 {
        let t = s.drop_first();
        assert forall|j: int| 0 <= j < n - 1 implies t[j] == c by {
            assert(t[j] == s[j + 1]);
        }
        lemma_leading(t, c, n - 1);
    }
}

/// `trailing` counts a run of `c` that starts the sequence or follows
/// another character.
pub proof fn lemma_trailing(s: Seq<char>, c: char, n: int)
    requires
        0 <= n <= s.len(),
        forall|j: int| s.len() - n <= j < s.len() ==> s[j] == c,
        n < s.len() ==> s[s.len() - n - 1] != c,
    ensures
        trailing(s, c) == n,
    decreases n,
{
    if n > 0 {
        let t = s.drop_last();
        assert forall|j: int| t.len() - (n - 1) <= j < t.len() implies t[j] == c by {
            assert(t[j] == s[j]);
        }
        lemma_trailing(t, c, n - 1);
    }
}

/// The bounds in `chars` of `trim_char(chars, c)`.
pub fn trim_bounds(chars: &[char], c: char) -> (r: (usize, usize))
    ensures
        r.0 <= r.1 <= chars@.len(),
        chars@.subrange(r.0 as int, r.1 as int) == trim_char(chars@, c),
{
    let n = chars.len();
    let mut a: usize = 0;
    while a < n && chars[a] == c
        invariant
            a <= n == chars@.len(),
            forall|j: int| 0 <= j < a ==> chars@[j] == c,
        decreases n - a,
    {
        a += 1;
    }
    proof {
        lemma_leading(chars@, c, a as int);
    }
    if a == n {
        return (n, n);
    }
    let mut b: usize = n;
    while b > a && chars[b - 1] == c
        invariant
            a <= b <= n == chars@.len(),
            a < n,
            chars@[a as int] != c,
            forall|j: int| b <= j < n ==> chars@[j] == c,
        decreases b,
    {
        b -= 1;
    }
    proof {
        lemma_trailing(chars@, c, n - b);
    }
    (a, b)
}

/// The pieces of `s` between the first `n - 1` occurrences of `sep`; the
/// last piece is the rest of `s`, whatever it holds. For `n` of at least 1.
pub open spec fn split_n(s: Seq<char>, sep: char, n: nat) -> Seq<Seq<char>>
    decreases n,
{
    let i = first_index_of(s, sep);
    if n <= 1 || i >= s.len() {
        seq![s]
    } else {
        seq![s.take(i)] + split_n(s.skip(i + 1), sep, (n - 1) as nat)
    }
}

/// The pieces `split_n(chars[from..to], sep, n)`, each as its bounds in
/// `chars`.
pub fn split_n_bounds(chars: &[char], from: usize, to: usize, sep: char, n: usize) -> (r: Vec<
    (usize, usize),
>)
    requires
        from <= to <= chars@.len(),
        n >= 1,
    ensures
        r@.len() == split_n(chars@.subrange(from as int, to as int), sep, n as nat).len(),
        1 <= r@.len() <= n,
        forall|k: int|
            0 <= k < r@.len() ==> from <= (#[trigger] r@[k]).0 <= r@[k].1 <= to && chars@.subrange(
                r@[k].0 as int,
                r@[k].1 as int,
            ) == split_n(chars@.subrange(from as int, to as int), sep, n as nat)[k],
{
    let ghost whole = split_n(chars@.subrange(from as int, to as int), sep, n as nat);
    let mut out: Vec<(usize, usize)> = Vec::new();
    let mut pos: usize = from;
    loop
        invariant
            from <= pos <= to <= chars@.len(),
            n >= 1,
            out@.len() < n,
            whole == split_n(chars@.subrange(from as int, to as int), sep, n as nat),
            whole.len() == out@.len() + split_n(
                chars@.subrange(pos as int, to as int),
                sep,
                (n - out@.len()) as nat,
            ).len(),
            forall|k: int|
                0 <= k < out@.len() ==> from <= (#[trigger] out@[k]).0 <= out@[k].1 <= to
                    && chars@.subrange(out@[k].0 as int, out@[k].1 as int) == whole[k],
            forall|k: int|
                0 <= k < whole.len() - out@.len() ==> #[trigger] whole[out@.len() + k] == split_n(
                    chars@.subrange(pos as int, to as int),
                    sep,
                    (n - out@.len()) as nat,
                )[k],
        decreases to - pos + n - out@.len(),
    {
        let ghost rest = chars@.subrange(pos as int, to as int);
        let ghost left = (n - out@.len()) as nat;
        let cut = find_char(chars, pos, to, sep);
        if out.len() + 1 == n || cut == to {
            proof {
                assert(split_n(rest, sep, left) == seq![rest]);
                assert(whole[out@.len() + 0int] == split_n(rest, sep, left)[0]);
            }
            out.push((pos, to));
            return out;
        }
        proof {
            let i = cut - pos;
            let tail = split_n(rest.skip(i + 1), sep, (left - 1) as nat);
            assert(split_n(rest, sep, left) == seq![rest.take(i)] + tail);
            assert(rest.take(i) == chars@.subrange(pos as int, cut as int));
            assert(rest.skip(i + 1) == chars@.subrange(cut + 1, to as int));
            assert(whole[out@.len() + 0int] == split_n(rest, sep, left)[0]);
            assert forall|k: int|
                0 <= k < whole.len() - out@.len() - 1 implies #[trigger] whole[out@.len() + 1 + k]
                == tail[k] by {
                assert(whole[out@.len() + (k + 1)] == split_n(rest, sep, left)[k + 1]);
            }
        }
        out.push((pos, cut));
        pos = cut + 1;
    }
}

/// An ASCII decimal digit.
pub open spec fn is_digit(c: char) -> bool {
    '0' <= c <= '9'
}

/// An ASCII letter.
pub open spec fn is_alpha(c: char) -> bool {
    ('a' <= c <= 'z') || ('A' <= c <= 'Z')
}

/// An ASCII letter or decimal digit.
pub open spec fn is_alphanumeric(c: char) -> bool {
    is_alpha(c) || is_digit(c)
}

/// An ASCII hexadecimal digit, in either case.
pub open spec fn is_hex_digit(c: char) -> bool {
    is_digit(c) || ('a' <= c <= 'f') || ('A' <= c <= 'F')
}

/// The lower-case form of an ASCII upper-case letter; any other character
/// is left as it is.
pub open spec fn ascii_lower(c: char) -> char {
    if 'A' <= c <= 'Z' {
        ((c as u32) + 32) as char
    } else {
        c
    }
}

#[verifier::when_used_as_spec(is_digit)]
pub fn digit(c: char) -> (r: bool)
    ensures
        r == is_digit(c),
{
    '0' <= c && c <= '9'
}

#[verifier::when_used_as_spec(is_alpha)]
pub fn alpha(c: char) -> (r: bool)
    ensures
        r == is_alpha(c),
{
    ('a' <= c && c <= 'z') || ('A' <= c && c <= 'Z')
}

#[verifier::when_used_as_spec(is_alphanumeric)]
pub fn alphanumeric(c: char) -> (r: bool)
    ensures
        r == is_alphanumeric(c),
{
    alpha(c) || digit(c)
}

#[verifier::when_used_as_spec(is_hex_digit)]
pub fn hex_digit(c: char) -> (r: bool)
    ensures
        r == is_hex_digit(c),
{
    digit(c) || ('a' <= c && c <= 'f') || ('A' <= c && c <= 'F')
}

#[verifier::when_used_as_spec(ascii_lower)]
pub fn lower(c: char) -> (r: char)
    ensures
        r == ascii_lower(c),
{
    if 'A' <= c && c <= 'Z' {
        let code: u8 = c as u8;
        (code + 32) as char
    } else {
        c
    }
}

/// The character of a decimal digit.
pub open spec fn digit_char(d: int) -> char {
    (48 + d) as u8 as char
}

/// The decimal notation of `n`, without leading zeros.
pub open spec fn decimal(n: nat) -> Seq<char>
    decreases n,
{
    if n < 10 {
        seq![digit_char(n as int)]
    } else {
        decimal(n / 10).push(digit_char((n % 10) as int))
    }
}

/// Appends the decimal notation of `n` to `out`.
pub fn push_decimal(out: &mut String, n: u128)
    ensures
        final(out)@ == old(out)@ + decimal(n as nat),
{
    let mut digits: Vec<char> = Vec::new();
    let mut rest: u128 = n;
    while rest >= 10
        invariant
            forall|tail: Seq<char>|
                decimal(n as nat) + tail == decimal(rest as nat) + #[trigger] (digits@.reverse()
                    + tail),
        decreases rest,
    {
        let d: u8 = (rest % 10) as u8;
        let ch: char = (48 + d) as char;
        proof {
            let before = digits@;
            let after = before.push(ch);
            assert forall|tail: Seq<char>|
                decimal(n as nat) + tail == decimal((rest / 10) as nat) + #[trigger] (
                after.reverse() + tail) by {
                assert(after.reverse() + tail == seq![ch] + (before.reverse() + tail));
                assert(decimal(rest as nat) == decimal((rest / 10) as nat).push(ch));
                assert(decimal(n as nat) + tail == decimal(rest as nat) + (before.reverse()
                    + tail));
                assert(decimal(rest as nat) + (before.reverse() + tail) == decimal(
                    (rest / 10) as nat,
                ) + (seq![ch] + (before.reverse() + tail)));
            }
        }
        digits.push(ch);
        rest = rest / 10;
    }
    let first: char = (48 + (rest as u8)) as char;
    out.push(first);
    let mut i: usize = digits.len();
    proof {
        assert(decimal(rest as nat) == seq![first]);
        let empty = Seq::<char>::empty();
        assert(digits@.reverse() + empty == digits@.reverse());
        assert(decimal(n as nat) + empty == decimal(n as nat));
        assert(digits@.reverse().take(0) == empty);
        assert(old(out)@.push(first) + empty == old(out)@.push(first));
    }
    while i > 0
        invariant
            i <= digits@.len(),
            decimal(n as nat) == seq![first] + digits@.reverse(),
            out@ == old(out)@.push(first) + digits@.reverse().take(digits@.len() - i),
        decreases i,
    {
        i -= 1;
        proof {
            let r = digits@.reverse();
            let k = digits@.len() - i - 1;
            assert(r[k] == digits@[i as int]);
            assert(r.take(k + 1) == r.take(k).push(r[k]));
        }
        out.push(digits[i]);
    }
    proof {
        let r = digits@.reverse();
        assert(r.take(r.len() as int) == r);
        assert(old(out)@.push(first) + r == old(out)@ + (seq![first] + r));
    }
}

/// ASCII white space: the space, the tab, the line feed, the form feed
/// and the carriage return.
pub open spec fn is_ascii_space(c: char) -> bool {
    c == ' ' || c == '\t' || c == '\n' || c == '\x0C' || c == '\r'
}

/// A character with the Unicode property `White_Space`.
pub open spec fn is_space(c: char) -> bool {
    let u = c as u32;
    (0x09 <= u <= 0x0D) || u == 0x20 || u == 0x85 || u == 0xA0 || u == 0x1680 || (0x2000 <= u
        <= 0x200A) || u == 0x2028 || u == 0x2029 || u == 0x202F || u == 0x205F || u == 0x3000
}

#[verifier::when_used_as_spec(is_ascii_space)]
pub fn ascii_space(c: char) -> (r: bool)
    ensures
        r == is_ascii_space(c),
{
    c == ' ' || c == '\t' || c == '\n' || c == '\x0C' || c == '\r'
}

#[verifier::when_used_as_spec(is_space)]
pub fn space(c: char) -> (r: bool)
    ensures
        r == is_space(c),
{
    let u: u32 = c as u32;
    (0x09 <= u && u <= 0x0D) || u == 0x20 || u == 0x85 || u == 0xA0 || u == 0x1680 || (0x2000
        <= u && u <= 0x200A) || u == 0x2028 || u == 0x2029 || u == 0x202F || u == 0x205F || u
        == 0x3000
}

/// The length of the longest prefix of `s` without white space; `ascii`
/// chooses between ASCII white space and Unicode's.
pub open spec fn word_length(s: Seq<char>, ascii: bool) -> int
    decreases s.len(),
{
    if s.len() > 0 && !separates(s[0], ascii) {
        1 + word_length(s.drop_first(), ascii)
    } else {
        0
    }
}

/// Whether `c` is white space of the chosen kind.
pub open spec fn separates(c: char, ascii: bool) -> bool {
    if ascii {
        is_ascii_space(c)
    } else {
        is_space(c)
    }
}

/// The words of `s`: its longest pieces without white space, in order.
pub open spec fn words(s: Seq<char>, ascii: bool) -> Seq<Seq<char>>
    decreases s.len(),
{
    if s.len() == 0 {
        Seq::empty()
    } else if separates(s[0], ascii) {
        words(s.drop_first(), ascii)
    } else {
        proof {
            lemma_word_length_bounds(s, ascii);
        }
        seq![s.take(word_length(s, ascii))] + words(s.skip(word_length(s, ascii)), ascii)
    }
}

/// A word is no longer than the text, and not empty where the text starts
/// with a character of a word.
pub proof fn lemma_word_length_bounds(s: Seq<char>, ascii: bool)
    ensures
        0 <= word_length(s, ascii) <= s.len(),
        s.len() > 0 && !separates(s[0], ascii) ==> word_length(s, ascii) >= 1,
    decreases s.len(),
{
    if s.len() > 0 && !separates(s[0], ascii) {
        lemma_word_length_bounds(s.drop_first(), ascii);
    }
}

/// A word is at least one character long where the text starts with one.
pub proof fn lemma_word_length(s: Seq<char>, ascii: bool, n: int)
    requires
        0 <= n <= s.len(),
        forall|j: int| 0 <= j < n ==> !separates(s[j], ascii),
        n < s.len() ==> separates(s[n], ascii),
    ensures
        word_length(s, ascii) == n,
    decreases n,
{
    if n > 0 {
        let t = s.drop_first();
        assert forall|j: int| 0 <= j < n - 1 implies !separates(t[j], ascii) by {
            assert(t[j] == s[j + 1]);
        }
        lemma_word_length(t, ascii, n - 1);
    }
}

/// Whether `c` is white space of the chosen kind.
fn is_separator(c: char, ascii: bool) -> (r: bool)
    ensures
        r == separates(c, ascii),
{
    if ascii {
        ascii_space(c)
    } else {
        space(c)
    }
}

/// The words of `chars`, each as its bounds in `chars`.
pub fn word_bounds(chars: &[char], ascii: bool) -> (r: Vec<(usize, usize)>)
    ensures
        r@.len() == words(chars@, ascii).len(),
        forall|k: int|
            0 <= k < r@.len() ==> (#[trigger] r@[k]).0 < r@[k].1 <= chars@.len() && chars@.subrange(
                r@[k].0 as int,
                r@[k].1 as int,
            ) == words(chars@, ascii)[k],
{
    let ghost whole = words(chars@, ascii);
    let n = chars.len();
    let mut out: Vec<(usize, usize)> = Vec::new();
    let mut pos: usize = 0;
    proof {
        assert(chars@.skip(0) == chars@);
    }
    while pos < n
        invariant
            pos <= n == chars@.len(),
            whole == words(chars@, ascii),
            whole.len() == out@.len() + words(chars@.skip(pos as int), ascii).len(),
            forall|k: int|
                0 <= k < out@.len() ==> (#[trigger] out@[k]).0 < out@[k].1 <= n && chars@.subrange(
                    out@[k].0 as int,
                    out@[k].1 as int,
                ) == whole[k],
            forall|k: int|
                0 <= k < whole.len() - out@.len() ==> #[trigger] whole[out@.len() + k] == words(
                    chars@.skip(pos as int),
                    ascii,
                )[k],
        decreases n - pos,
    {
        let ghost rest = chars@.skip(pos as int);
        if is_separator(chars[pos], ascii) {
            proof {
                assert(rest.drop_first() == chars@.skip(pos + 1));
            }
            pos += 1;
        } else {
            let start = pos;
            let mut end: usize = pos + 1;
            while end < n && !is_separator(chars[end], ascii)
                invariant
                    start < end <= n == chars@.len(),
                    forall|j: int| start <= j < end ==> !separates(chars@[j], ascii),
                decreases n - end,
            {
                end += 1;
            }
            proof {
                let len = end - start;
                assert forall|j: int| 0 <= j < len implies !separates(rest[j], ascii) by {
                    assert(rest[j] == chars@[start + j]);
                }
                lemma_word_length(rest, ascii, len);
                let tail = words(rest.skip(len), ascii);
                assert(words(rest, ascii) == seq![rest.take(len)] + tail);
                assert(rest.take(len) == chars@.subrange(start as int, end as int));
                assert(rest.skip(len) == chars@.skip(end as int));
                assert(whole[out@.len() + 0int] == words(rest, ascii)[0]);
                assert forall|k: int|
                    0 <= k < whole.len() - out@.len() - 1 implies #[trigger] whole[out@.len() + 1
                    + k] == tail[k] by {
                    assert(whole[out@.len() + (k + 1)] == words(rest, ascii)[k + 1]);
                }
            }
            out.push((start, end));
            pos = end;
        }
    }
    out
}

} // verus!
