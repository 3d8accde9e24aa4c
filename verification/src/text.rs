//! Text as sequences of characters.
//!
//! The specifications speak of `Seq<char>`; the functions work on `str` and
//! `String` and are proved against them.

use vstd::prelude::*;
use vstd::string::StrSliceExecFns;
use vstd::string::StringExecFns;
use vstd::utf8::*;

verus! {

/// `str` equality compares the characters of the two slices.
pub assume_specification[ <str as PartialEq>::eq ](a: &str, b: &str) -> (r: bool)
    ensures
        r == (a@ == b@),
;

/// `String::push` appends one character at the end.
pub assume_specification[ String::push ](s: &mut String, c: char)
    ensures
        final(s)@ == old(s)@.push(c),
;

/// Whether two texts hold the same characters.
pub fn same(a: &str, b: &str) -> (r: bool)
    ensures
        r == (a@ == b@),
{
    *a == *b
}

/// What each `String` of a sequence holds.
pub open spec fn texts(strings: Seq<String>) -> Seq<Seq<char>> {
    strings.map_values(|s: String| s@)
}

/// What an optional `String` holds.
pub open spec fn opt_text(s: Option<String>) -> Option<Seq<char>> {
    match s {
        Some(s) => Some(s@),
        None => None,
    }
}

/// What a row of pairs of texts holds.
pub open spec fn pairs(strings: Seq<(String, String)>) -> Seq<(Seq<char>, Seq<char>)> {
    strings.map_values(|pair: (String, String)| (pair.0@, pair.1@))
}

/// The same texts again.
pub(crate) fn copy_texts(strings: &Vec<String>) -> (r: Vec<String>)
    ensures
        texts(r@) == texts(strings@),
{
    let mut out: Vec<String> = Vec::new();
    let mut i: usize = 0;
    while i < strings.len()
        invariant
            i <= strings@.len(),
            out@.len() == i,
            forall|k: int| 0 <= k < i ==> (#[trigger] out@[k])@ == strings@[k]@,
        decreases strings.len() - i,
    {
        out.push(strings[i].clone());
        i += 1;
    }
    assert(texts(out@) =~= texts(strings@));
    out
}

/// The characters of `s`, one by one.
pub(crate) fn chars_of(s: &str) -> (r: Vec<char>)
    ensures
        r@ == s@,
{
    let mut out: Vec<char> = Vec::new();
    for c in iter: s.chars()
        invariant
            out@.len() == iter.index(),
            iter.seq() == s@,
            forall|k: int| 0 <= k < out@.len() ==> out@[k] == s@[k],
    {
        out.push(c);
    }
    out
}

/// The text of `chars[from..to]`.
pub(crate) fn text_between(chars: &Vec<char>, from: usize, to: usize) -> (r: String)
    requires
        from <= to <= chars@.len(),
    ensures
        r@ == chars@.subrange(from as int, to as int),
{
    let mut out = String::new();
    let mut i: usize = from;
    while i < to
        invariant
            from <= i <= to <= chars@.len(),
            out@ == chars@.subrange(from as int, i as int),
        decreases to - i,
    {
        out.push(chars[i]);
        i += 1;
    }
    out
}

// ---------------------------------------------------------------- whitespace

/// The characters with the Unicode property `White_Space`.
pub open spec fn is_space(c: char) -> bool {
    let u = c as u32;
    ||| 0x9 <= u <= 0xd
    ||| u == 0x20
    ||| u == 0x85
    ||| u == 0xa0
    ||| u == 0x1680
    ||| 0x2000 <= u <= 0x200a
    ||| u == 0x2028
    ||| u == 0x2029
    ||| u == 0x202f
    ||| u == 0x205f
    ||| u == 0x3000
}

/// `s` without the whitespace at its start.
pub open spec fn trim_start(s: Seq<char>) -> Seq<char>
    decreases s.len(),
{
    if s.len() > 0 && is_space(s[0]) {
        trim_start(s.drop_first())
    } else {
        s
    }
}

/// `s` without the whitespace at its end.
pub open spec fn trim_end(s: Seq<char>) -> Seq<char>
    decreases s.len(),
{
    if s.len() > 0 && is_space(s.last()) {
        trim_end(s.drop_last())
    } else {
        s
    }
}

/// `s` without the whitespace at either end.
pub open spec fn trimmed(s: Seq<char>) -> Seq<char> {
    trim_end(trim_start(s))
}

/// Nothing but whitespace.
pub open spec fn is_blank(s: Seq<char>) -> bool {
    forall|i: int| 0 <= i < s.len() ==> is_space(#[trigger] s[i])
}

pub(crate) fn char_is_space(c: char) -> (r: bool)
    ensures
        r == is_space(c),
{
    let u: u32 = c as u32;
    (0x9 <= u && u <= 0xd) || u == 0x20 || u == 0x85 || u == 0xa0 || u == 0x1680 || (0x2000 <= u
        && u <= 0x200a) || u == 0x2028 || u == 0x2029 || u == 0x202f || u == 0x205f || u == 0x3000
}

/// Trimming leaves nothing exactly when there was nothing but whitespace.
pub proof fn lemma_trimmed_empty_iff_blank(s: Seq<char>)
    ensures
        trimmed(s).len() == 0 <==> is_blank(s),
{
    lemma_trim_start(s);
    lemma_trim_end(trim_start(s));
    let t = trim_start(s);
    if is_blank(s) {
        if t.len() > 0 {
            assert(t[0] == s[s.len() - t.len()]);
        }
    } else if trimmed(s).len() == 0 {
        if t.len() > 0 {
            assert(is_space(t[0]));
        }
        assert forall|i: int| 0 <= i < s.len() implies is_space(#[trigger] s[i]) by {};
    }
}

proof fn lemma_trim_start(s: Seq<char>)
    ensures
        trim_start(s).len() <= s.len(),
        trim_start(s) == s.skip(s.len() - trim_start(s).len()),
        forall|i: int| 0 <= i < s.len() - trim_start(s).len() ==> is_space(#[trigger] s[i]),
        trim_start(s).len() > 0 ==> !is_space(trim_start(s)[0]),
    decreases s.len(),
{
    if s.len() > 0 && is_space(s[0]) {
        let rest = s.drop_first();
        lemma_trim_start(rest);
        assert forall|i: int| 0 <= i < s.len() - trim_start(s).len() implies is_space(
            #[trigger] s[i],
        ) by {
            if i > 0 {
                assert(s[i] == rest[i - 1]);
            }
        }
        assert(rest.skip(rest.len() - trim_start(s).len()) =~= s.skip(
            s.len() - trim_start(s).len(),
        ));
    } else {
        assert(s.skip(0) =~= s);
    }
}

proof fn lemma_trim_end(s: Seq<char>)
    ensures
        trim_end(s).len() <= s.len(),
        trim_end(s) == s.take(trim_end(s).len() as int),
        forall|i: int| trim_end(s).len() <= i < s.len() ==> is_space(#[trigger] s[i]),
        trim_end(s).len() > 0 ==> !is_space(trim_end(s).last()),
    decreases s.len(),
{
    if s.len() > 0 && is_space(s.last()) {
        let rest = s.drop_last();
        lemma_trim_end(rest);
        assert forall|i: int| trim_end(s).len() <= i < s.len() implies is_space(#[trigger] s[i]) by {
            if i < rest.len() {
                assert(s[i] == rest[i]);
            }
        }
        assert(rest.take(trim_end(s).len() as int) =~= s.take(trim_end(s).len() as int));
    } else {
        assert(s.take(s.len() as int) =~= s);
    }
}

proof fn lemma_trim_start_skips(s: Seq<char>, n: int)
    requires
        0 <= n <= s.len(),
        forall|i: int| 0 <= i < n ==> is_space(#[trigger] s[i]),
        n < s.len() ==> !is_space(s[n]),
    ensures
        trim_start(s) == s.skip(n),
    decreases n,
{
    if n > 0 {
        let rest = s.drop_first();
        assert forall|i: int| 0 <= i < n - 1 implies is_space(#[trigger] rest[i]) by {
            assert(rest[i] == s[i + 1]);
        }
        lemma_trim_start_skips(rest, n - 1);
        assert(is_space(s[0]));
        assert(rest.skip(n - 1) =~= s.skip(n));
    } else {
        assert(s.skip(0) =~= s);
    }
}

proof fn lemma_trim_end_takes(s: Seq<char>, n: int)
    requires
        0 <= n <= s.len(),
        forall|i: int| n <= i < s.len() ==> is_space(#[trigger] s[i]),
        n > 0 ==> !is_space(s[n - 1]),
    ensures
        trim_end(s) == s.take(n),
    decreases s.len() - n,
{
    if n < s.len() {
        let rest = s.drop_last();
        assert forall|i: int| n <= i < rest.len() implies is_space(#[trigger] rest[i]) by {
            assert(rest[i] == s[i]);
        }
        assert(is_space(s[s.len() - 1]));
        lemma_trim_end_takes(rest, n);
        assert(rest.take(n) =~= s.take(n));
    } else {
        assert(s.take(n) =~= s);
    }
}

/// `s` without the whitespace at either end.
pub fn trim<'a>(s: &'a str) -> (r: &'a str)
    ensures
        r@ == trimmed(s@),
{
    let chars = chars_of(s);
    let mut from: usize = 0;
    while from < chars.len() && char_is_space(chars[from])
        invariant
            from <= chars@.len(),
            forall|i: int| 0 <= i < from ==> is_space(#[trigger] chars@[i]),
        decreases chars.len() - from,
    {
        from += 1;
    }
    proof {
        lemma_trim_start_skips(s@, from as int);
    }
    let mut to: usize = chars.len();
    while to > from && char_is_space(chars[to - 1])
        invariant
            from <= to <= chars@.len(),
            forall|i: int| to <= i < chars@.len() ==> is_space(#[trigger] chars@[i]),
        decreases to,
    {
        to -= 1;
    }
    proof {
        let t = s@.skip(from as int);
        assert forall|i: int| to - from <= i < t.len() implies is_space(#[trigger] t[i]) by {
            assert(t[i] == chars@[i + from]);
        }
        lemma_trim_end_takes(t, to - from);
        assert(t.take(to - from) =~= s@.subrange(from as int, to as int));
    }
    s.substring_char(from, to)
}

/// Whether `s` holds nothing but whitespace.
pub fn blank(s: &str) -> (r: bool)
    ensures
        r == is_blank(s@),
{
    proof {
        lemma_trimmed_empty_iff_blank(s@);
    }
    trim(s).is_empty()
}

// ------------------------------------------------------------------ searching

/// What stands before and after the first `c`, where there is one.
pub open spec fn split_first(s: Seq<char>, c: char) -> Option<(Seq<char>, Seq<char>)> {
    match s.index_of_first(c) {
        Some(i) => Some((s.take(i), s.skip(i + 1))),
        None => None,
    }
}

/// The first position of `c` at or after `from`, or the length.
pub(crate) fn position_from(chars: &Vec<char>, c: char, from: usize) -> (r: usize)
    requires
        from <= chars@.len(),
    ensures
        from <= r <= chars@.len(),
        r < chars@.len() ==> chars@[r as int] == c,
        forall|i: int| from <= i < r ==> chars@[i] != c,
{
    let mut i: usize = from;
    while i < chars.len() && chars[i] != c
        invariant
            from <= i <= chars@.len(),
            forall|k: int| from <= k < i ==> chars@[k] != c,
        decreases chars.len() - i,
    {
        i += 1;
    }
    i
}

pub(crate) proof fn lemma_index_of_first(s: Seq<char>, c: char, i: int)
    requires
        0 <= i <= s.len(),
        i < s.len() ==> s[i] == c,
        forall|k: int| 0 <= k < i ==> s[k] != c,
    ensures
        s.index_of_first(c) == (if i < s.len() {
            Some(i)
        } else {
            None
        }),
{
    s.index_of_first_ensures(c);
}

/// The text before and after the first `c`.
pub fn split_once<'a>(s: &'a str, c: char) -> (r: Option<(&'a str, &'a str)>)
    ensures
        match r {
            Some((before, after)) => split_first(s@, c) == Some((before@, after@)),
            None => split_first(s@, c) is None,
        },
{
    let chars = chars_of(s);
    let i: usize = position_from(&chars, c, 0);
    proof {
        lemma_index_of_first(s@, c, i as int);
    }
    if i < chars.len() {
        assert(s@.subrange(0, i as int) =~= s@.take(i as int));
        assert(s@.subrange(i + 1, s@.len() as int) =~= s@.skip(i + 1));
        Some((s.substring_char(0, i), s.substring_char(i + 1, chars.len())))
    } else {
        None
    }
}

/// Whether `s` begins with `prefix`.
pub fn starts_with(s: &str, prefix: &str) -> (r: bool)
    ensures
        r == prefix@.is_prefix_of(s@),
{
    let n: usize = prefix.unicode_len();
    if n <= s.unicode_len() {
        same(s.substring_char(0, n), prefix)
    } else {
        false
    }
}

/// What follows `prefix` in `s`, where `s` begins with it.
pub fn strip_prefix<'a>(s: &'a str, prefix: &str) -> (r: Option<&'a str>)
    ensures
        match r {
            Some(rest) => prefix@.is_prefix_of(s@) && rest@ == s@.skip(prefix@.len() as int),
            None => !prefix@.is_prefix_of(s@),
        },
{
    if starts_with(s, prefix) {
        let n: usize = prefix.unicode_len();
        let end: usize = s.unicode_len();
        assert(s@.subrange(n as int, end as int) =~= s@.skip(n as int));
        Some(s.substring_char(n, end))
    } else {
        None
    }
}

/// `s` without the copies of `c` at its end.
pub open spec fn trim_end_char(s: Seq<char>, c: char) -> Seq<char>
    decreases s.len(),
{
    if s.len() > 0 && s.last() == c {
        trim_end_char(s.drop_last(), c)
    } else {
        s
    }
}

/// `s` without the copies of `c` at its start.
pub open spec fn trim_start_char(s: Seq<char>, c: char) -> Seq<char>
    decreases s.len(),
{
    if s.len() > 0 && s[0] == c {
        trim_start_char(s.drop_first(), c)
    } else {
        s
    }
}

proof fn lemma_trim_end_char(s: Seq<char>, c: char, n: int)
    requires
        0 <= n <= s.len(),
        forall|i: int| n <= i < s.len() ==> s[i] == c,
        n > 0 ==> s[n - 1] != c,
    ensures
        trim_end_char(s, c) == s.take(n),
    decreases s.len() - n,
{
    if n < s.len() {
        lemma_trim_end_char(s.drop_last(), c, n);
        assert(s.drop_last().take(n) =~= s.take(n));
    } else {
        assert(s.take(n) =~= s);
    }
}

proof fn lemma_trim_start_char(s: Seq<char>, c: char, n: int)
    requires
        0 <= n <= s.len(),
        forall|i: int| 0 <= i < n ==> s[i] == c,
        n < s.len() ==> s[n] != c,
    ensures
        trim_start_char(s, c) == s.skip(n),
    decreases n,
{
    if n > 0 {
        lemma_trim_start_char(s.drop_first(), c, n - 1);
        assert(s.drop_first().skip(n - 1) =~= s.skip(n));
    } else {
        assert(s.skip(0) =~= s);
    }
}

/// `s` without the copies of `c` at its end.
pub fn trim_end_matches<'a>(s: &'a str, c: char) -> (r: &'a str)
    ensures
        r@ == trim_end_char(s@, c),
{
    let chars = chars_of(s);
    let mut to: usize = chars.len();
    while to > 0 && chars[to - 1] == c
        invariant
            to <= chars@.len(),
            forall|i: int| to <= i < chars@.len() ==> chars@[i] == c,
        decreases to,
    {
        to -= 1;
    }
    proof {
        lemma_trim_end_char(s@, c, to as int);
        assert(s@.subrange(0, to as int) =~= s@.take(to as int));
    }
    s.substring_char(0, to)
}

/// `s` without the copies of `c` at its start.
pub fn trim_start_matches<'a>(s: &'a str, c: char) -> (r: &'a str)
    ensures
        r@ == trim_start_char(s@, c),
{
    let chars = chars_of(s);
    let mut from: usize = 0;
    while from < chars.len() && chars[from] == c
        invariant
            from <= chars@.len(),
            forall|i: int| 0 <= i < from ==> chars@[i] == c,
        decreases chars.len() - from,
    {
        from += 1;
    }
    proof {
        lemma_trim_start_char(s@, c, from as int);
        assert(s@.subrange(from as int, s@.len() as int) =~= s@.skip(from as int));
    }
    s.substring_char(from, chars.len())
}

// ---------------------------------------------------------------------- lines

/// `s` without a carriage return at its end.
pub open spec fn without_return(s: Seq<char>) -> Seq<char> {
    if s.len() > 0 && s.last() == '\r' {
        s.drop_last()
    } else {
        s
    }
}

/// The lines of a text. A line ends at `\n` or `\r\n`, which is not part of it;
/// the last line needs no ending.
pub open spec fn lines_of(s: Seq<char>) -> Seq<Seq<char>>
    decreases s.len(),
    via lines_of_decreases
{
    if s.len() == 0 {
        seq![]
    } else {
        match s.index_of_first('\n') {
            Some(i) => seq![without_return(s.take(i))] + lines_of(s.skip(i + 1)),
            None => seq![s],
        }
    }
}

#[via_fn]
proof fn lines_of_decreases(s: Seq<char>) {
    s.index_of_first_ensures('\n');
}

/// The lines of `s`.
pub fn lines(s: &str) -> (r: Vec<String>)
    ensures
        texts(r@) == lines_of(s@),
{
    let chars = chars_of(s);
    let n: usize = chars.len();
    let mut out: Vec<String> = Vec::new();
    let mut start: usize = 0;
    assert(s@.skip(0) =~= s@);
    assert(texts(out@) + lines_of(s@) =~= lines_of(s@));
    while start < n
        invariant
            start <= n == chars@.len(),
            chars@ == s@,
            lines_of(s@) == texts(out@) + lines_of(s@.skip(start as int)),
        decreases n - start,
    {
        let i: usize = position_from(&chars, '\n', start);
        let ghost rest = s@.skip(start as int);
        let ghost before = out@;
        proof {
            assert forall|k: int| 0 <= k < i - start implies rest[k] != '\n' by {
                assert(rest[k] == chars@[k + start]);
            }
            lemma_index_of_first(rest, '\n', i - start);
        }
        if i < n {
            let end: usize = if i > start && chars[i - 1] == '\r' {
                i - 1
            } else {
                i
            };
            out.push(text_between(&chars, start, end));
            proof {
                assert(chars@.subrange(start as int, end as int) =~= without_return(
                    rest.take(i - start),
                ));
                assert(rest.skip(i - start + 1) =~= s@.skip(i + 1));
            }
            start = i + 1;
        } else {
            out.push(text_between(&chars, start, n));
            assert(chars@.subrange(start as int, n as int) =~= rest);
            start = n;
        }
        assert(texts(out@) =~= texts(before).push(out@.last()@));
        assert(s@.skip(start as int).len() == 0 ==> lines_of(s@.skip(start as int)) =~= seq![]);
        assert(lines_of(s@) =~= texts(out@) + lines_of(s@.skip(start as int)));
    }
    assert(texts(out@) + lines_of(s@.skip(n as int)) =~= texts(out@));
    out
}

// -------------------------------------------------------------------- numbers

/// A decimal digit.
pub open spec fn is_digit(c: char) -> bool {
    '0' <= c <= '9'
}

/// The digit of a number below sixteen.
pub open spec fn hex_digit(d: int) -> char {
    if d < 10 {
        (d + 48) as char
    } else {
        (d + 87) as char
    }
}

/// A number in decimal, without leading zeros.
pub open spec fn decimal(n: nat) -> Seq<char>
    decreases n,
{
    if n < 10 {
        seq![hex_digit(n as int)]
    } else {
        decimal(n / 10).push(hex_digit((n % 10) as int))
    }
}

/// The last `width` hexadecimal digits of a number, in lower case.
pub open spec fn hex(n: nat, width: nat) -> Seq<char>
    decreases width,
{
    if width == 0 {
        seq![]
    } else {
        hex(n / 16, (width - 1) as nat).push(hex_digit((n % 16) as int))
    }
}

/// How many numbers can be told apart by `width` hexadecimal digits.
pub open spec fn hex_range(width: nat) -> nat
    decreases width,
{
    if width == 0 {
        1
    } else {
        16 * hex_range((width - 1) as nat)
    }
}

/// Different numbers have different digits, where there are digits enough.
pub proof fn lemma_hex_is_injective(a: nat, b: nat, width: nat)
    requires
        a < hex_range(width),
        b < hex_range(width),
        hex(a, width) == hex(b, width),
    ensures
        a == b,
    decreases width,
{
    if width > 0 {
        let shorter = (width - 1) as nat;
        let high_a = hex(a / 16, shorter);
        let high_b = hex(b / 16, shorter);
        assert(hex(a, width).drop_last() =~= high_a);
        assert(hex(b, width).drop_last() =~= high_b);
        assert(hex(a, width).last() == hex_digit((a % 16) as int));
        assert(hex(b, width).last() == hex_digit((b % 16) as int));
        lemma_hex_is_injective(a / 16, b / 16, shorter);
    }
}

/// The number that a row of decimal digits stands for.
pub open spec fn digits_value(s: Seq<char>) -> nat
    decreases s.len(),
{
    if s.len() == 0 {
        0
    } else {
        10 * digits_value(s.drop_last()) + ((s.last() as u32) - 48) as nat
    }
}

/// At least one character, and decimal digits only.
pub open spec fn is_numeral(s: Seq<char>) -> bool {
    &&& s.len() > 0
    &&& forall|i: int| 0 <= i < s.len() ==> is_digit(#[trigger] s[i])
}

/// The integer that a text writes: an optional sign, then decimal digits.
pub open spec fn integer_of(s: Seq<char>) -> Option<int> {
    let signed = s.len() > 0 && (s[0] == '-' || s[0] == '+');
    let digits = if signed {
        s.skip(1)
    } else {
        s
    };
    if !is_numeral(digits) {
        None
    } else if s[0] == '-' {
        Some(-(digits_value(digits) as int))
    } else {
        Some(digits_value(digits) as int)
    }
}

/// The integer that a text writes, where an `i64` can hold it.
pub open spec fn i64_of(s: Seq<char>) -> Option<i64> {
    match integer_of(s) {
        Some(n) => if i64::MIN <= n <= i64::MAX {
            Some(n as i64)
        } else {
            None
        },
        None => None,
    }
}

fn digit_char(d: u8) -> (r: char)
    requires
        d < 16,
    ensures
        r == hex_digit(d as int),
{
    if d < 10 {
        (d + 48) as char
    } else {
        (d + 87) as char
    }
}

/// `n` in decimal.
pub fn show_decimal(n: u64) -> (r: String)
    ensures
        r@ == decimal(n as nat),
    decreases n,
{
    let mut out = if n < 10 {
        String::new()
    } else {
        show_decimal(n / 10)
    };
    out.push(digit_char((n % 10) as u8));
    out
}

/// `n` as `width` hexadecimal digits.
pub fn show_hex(n: u64, width: u8) -> (r: String)
    ensures
        r@ == hex(n as nat, width as nat),
    decreases width,
{
    if width == 0 {
        String::new()
    } else {
        let mut out = show_hex(n / 16, width - 1);
        out.push(digit_char((n % 16) as u8));
        out
    }
}

proof fn lemma_digits_value_grows(s: Seq<char>, n: int)
    requires
        0 <= n <= s.len(),
    ensures
        digits_value(s.take(n)) <= digits_value(s),
    decreases s.len() - n,
{
    if n < s.len() {
        lemma_digits_value_grows(s, n + 1);
        assert(s.take(n + 1).drop_last() =~= s.take(n));
    } else {
        assert(s.take(n) =~= s);
    }
}

/// The integer that `s` writes, where an `i64` can hold it.
pub fn parse_i64(s: &str) -> (r: Option<i64>)
    ensures
        r == i64_of(s@),
{
    let chars = chars_of(s);
    let n: usize = chars.len();
    if n == 0 {
        return None;
    }
    let negative = chars[0] == '-';
    let first: usize = if negative || chars[0] == '+' {
        1
    } else {
        0
    };
    if first == n {
        return None;
    }
    let ghost digits = if first == 1 {
        s@.skip(1)
    } else {
        s@
    };
    let mut value: u64 = 0;
    let mut i: usize = first;
    while i < n
        invariant
            first <= i <= n == chars@.len(),
            first <= 1,
            chars@ == s@,
            digits == (if first == 1 {
                s@.skip(1)
            } else {
                s@
            }),
            integer_of(s@) == (if !is_numeral(digits) {
                None::<int>
            } else if negative {
                Some(-(digits_value(digits) as int))
            } else {
                Some(digits_value(digits) as int)
            }),
            value == digits_value(digits.take(i - first)),
            value <= 0x8000_0000_0000_0000,
            forall|k: int| 0 <= k < i - first ==> is_digit(#[trigger] digits[k]),
        decreases n - i,
    {
        let c = chars[i];
        assert(c == digits[i - first]);
        if c < '0' || c > '9' {
            return None;
        }
        let wide: u128 = 10 * (value as u128) + ((c as u32) - 48) as u128;
        assert(digits.take(i - first + 1).drop_last() =~= digits.take(i - first));
        assert(wide == digits_value(digits.take(i - first + 1)));
        if wide > 0x8000_0000_0000_0000 {
            proof {
                lemma_digits_value_grows(digits, i - first + 1);
            }
            return None;
        }
        value = wide as u64;
        i += 1;
    }
    assert(digits.take(n - first) =~= digits);
    if negative {
        if value == 0x8000_0000_0000_0000 {
            Some(i64::MIN)
        } else {
            Some(-(value as i64))
        }
    } else if value < 0x8000_0000_0000_0000 {
        Some(value as i64)
    } else {
        None
    }
}

// ----------------------------------------------------------------- bytes, case

/// The message of the error with which `core::str::from_utf8` refuses some bytes.
pub uninterp spec fn utf8_error(bytes: Seq<u8>) -> Seq<char>;

/// The text that `String::from_utf8_lossy` makes of some bytes.
pub uninterp spec fn utf8_lossy(bytes: Seq<u8>) -> Seq<char>;

/// The text that `str::to_lowercase` makes of a text.
pub uninterp spec fn lowercase(s: Seq<char>) -> Seq<char>;

/// The text of some bytes: the characters that they encode, where they are UTF-8,
/// else what `String::from_utf8_lossy` makes of them.
pub open spec fn lossy(bytes: Seq<u8>) -> Seq<char> {
    if valid_utf8(bytes) {
        decode_utf8(bytes)
    } else {
        utf8_lossy(bytes)
    }
}

/// A text in lower case. Of an ASCII text, the capital letters change and nothing
/// else.
pub open spec fn lowered(s: Seq<char>) -> Seq<char> {
    if is_ascii_chars(s) {
        s.map_values(|c: char| ascii_lower(c))
    } else {
        lowercase(s)
    }
}

/// `core::str::from_utf8`: the characters that the bytes encode, where they are
/// UTF-8, or the text of the error.
#[verifier::external_body]
pub(crate) fn utf8_text(bytes: &[u8]) -> (r: Result<&str, String>)
    ensures
        match r {
            Ok(s) => valid_utf8(bytes@) && s@ == decode_utf8(bytes@),
            Err(message) => !valid_utf8(bytes@) && message@ == utf8_error(bytes@),
        },
{
    match core::str::from_utf8(bytes) {
        Ok(s) => Ok(s),
        Err(error) => Err(error.to_string()),
    }
}

/// `String::from_utf8_lossy`: the characters that the bytes encode, where they
/// are UTF-8; else a text with replacement characters, which depends on nothing
/// but the bytes.
#[verifier::external_body]
pub(crate) fn lossy_text(bytes: &[u8]) -> (r: String)
    ensures
        r@ == utf8_lossy(bytes@),
        valid_utf8(bytes@) ==> r@ == decode_utf8(bytes@),
{
    String::from_utf8_lossy(bytes).into_owned()
}

/// The lower-case letter of an ASCII capital; any other character itself.
pub open spec fn ascii_lower(c: char) -> char {
    if 'A' <= c <= 'Z' {
        ((c as u32) + 32) as char
    } else {
        c
    }
}

/// `str::to_lowercase`: the Unicode lower-case form, which on ASCII text changes
/// the capital letters and nothing else.
#[verifier::external_body]
pub(crate) fn lowercase_text(s: &str) -> (r: String)
    ensures
        r@ == lowercase(s@),
        is_ascii_chars(s@) ==> r@ == s@.map_values(|c: char| ascii_lower(c)),
{
    s.to_lowercase()
}

/// `parts`, with `separator` between each two.
pub open spec fn joined(parts: Seq<Seq<char>>, separator: Seq<char>) -> Seq<char>
    decreases parts.len(),
{
    if parts.len() == 0 {
        seq![]
    } else if parts.len() == 1 {
        parts[0]
    } else {
        joined(parts.drop_last(), separator) + separator + parts.last()
    }
}

/// The concatenation of three texts.
pub(crate) fn concat3(a: &str, b: &str, c: &str) -> (r: String)
    ensures
        r@ == a@ + b@ + c@,
{
    let mut out = String::from_str(a);
    out.append(b);
    out.append(c);
    out
}

/// The concatenation of two texts.
pub(crate) fn concat2(a: &str, b: &str) -> (r: String)
    ensures
        r@ == a@ + b@,
{
    let mut out = String::from_str(a);
    out.append(b);
    out
}

// ------------------------------------------------------------------------ laws

/// What is joined of two rows is what is joined of each, with a separator between.
pub proof fn lemma_joined_falls_apart(
    first: Seq<Seq<char>>,
    rest: Seq<Seq<char>>,
    separator: Seq<char>,
)
    requires
        first.len() > 0,
    ensures
        joined(first + rest, separator) == joined(first, separator) + (if rest.len() == 0 {
            seq![]
        } else {
            separator + joined(rest, separator)
        }),
        first.len() == 1 ==> joined(first, separator) == first[0],
    decreases rest.len(),
{
    if rest.len() == 0 {
        assert(first + rest =~= first);
        assert(joined(first, separator) + seq![] =~= joined(first, separator));
    } else {
        let front = rest.drop_last();
        lemma_joined_falls_apart(first, front, separator);
        assert((first + rest).drop_last() =~= first + front);
        assert((first + rest).last() == rest.last());
        if rest.len() == 1 {
            assert(joined(rest, separator) == rest[0]);
            assert(first + front =~= first);
        }
        assert(joined(first + rest, separator) =~= joined(first, separator) + (separator + joined(
            rest,
            separator,
        )));
    }
}

/// Lines are read off one by one: what stands before the first newline is a line, of
/// which a carriage return at the end is no part, and the rest is read as it would be
/// alone.
pub proof fn lemma_lines_are_read_off(line: Seq<char>, rest: Seq<char>)
    requires
        !line.contains('\n'),
    ensures
        line.len() == 0 || line.last() != '\r' ==> lines_of(line + seq!['\n'] + rest) == seq![line]
            + lines_of(rest),
        lines_of(line + seq!['\r', '\n'] + rest) == seq![line] + lines_of(rest),
        line.len() > 0 ==> lines_of(line) == seq![line],
        lines_of(seq![]) == Seq::<Seq<char>>::empty(),
{
    assert forall|k: int| 0 <= k < line.len() implies line[k] != '\n' by {
        if line[k] == '\n' {
            assert(line.contains(line[k]));
        }
    }
    let n = line.len() as int;
    lemma_index_of_first(line, '\n', n);
    let plain = line + seq!['\n'] + rest;
    assert forall|k: int| 0 <= k < n implies plain[k] != '\n' by {
        assert(plain[k] == line[k]);
    }
    lemma_index_of_first(plain, '\n', n);
    assert(plain.take(n) =~= line);
    assert(plain.skip(n + 1) =~= rest);
    let long = line + seq!['\r', '\n'] + rest;
    assert forall|k: int| 0 <= k < n + 1 implies long[k] != '\n' by {
        if k < n {
            assert(long[k] == line[k]);
        }
    }
    lemma_index_of_first(long, '\n', n + 1);
    assert(long.take(n + 1) =~= line.push('\r'));
    assert(line.push('\r').drop_last() =~= line);
    assert(long.skip(n + 2) =~= rest);
}

/// Trimming takes whitespace off both ends and nothing else, and leaves none there.
pub proof fn lemma_trimmed_is_the_core(s: Seq<char>)
    ensures
        exists|a: Seq<char>, b: Seq<char>|
            #![trigger is_blank(a), is_blank(b)]
            is_blank(a) && is_blank(b) && s == a + trimmed(s) + b,
        trimmed(s).len() > 0 ==> !is_space(trimmed(s)[0]) && !is_space(trimmed(s).last()),
{
    lemma_trim_start(s);
    let t = trim_start(s);
    lemma_trim_end(t);
    let a = s.take(s.len() - t.len());
    let b = t.skip(trimmed(s).len() as int);
    assert(is_blank(a));
    assert forall|i: int| 0 <= i < b.len() implies is_space(#[trigger] b[i]) by {
        assert(b[i] == t[i + trimmed(s).len()]);
    }
    assert(is_blank(b));
    assert(s =~= a + trimmed(s) + b);
    if trimmed(s).len() > 0 {
        assert(trimmed(s)[0] == t[0]);
    }
}

/// Of the ASCII characters, the space, the tab and the line breaks are whitespace, and
/// no other.
pub proof fn lemma_ascii_whitespace(c: char)
    requires
        (c as u32) < 0x80,
    ensures
        is_space(c) <==> c == ' ' || c == '\t' || c == '\n' || c == '\r' || c as u32 == 0xb || c as u32
            == 0xc,
{
}

/// A split at the first `c` loses nothing: the two parts and `c` between them are the
/// whole, and the first part has no `c`. There is a split exactly where there is a `c`.
pub proof fn lemma_split_first(s: Seq<char>, c: char)
    ensures
        split_first(s, c) is Some <==> s.contains(c),
        split_first(s, c) matches Some((head, tail)) ==> s == head + seq![c] + tail
            && !head.contains(c),
{
    s.index_of_first_ensures(c);
    if let Some((head, tail)) = split_first(s, c) {
        let i = s.index_of_first(c)->0;
        assert(s =~= head + seq![c] + tail);
        assert forall|k: int| 0 <= k < head.len() implies head[k] != c by {
            assert(head[k] == s[k]);
        }
    }
}

/// Whether a text is nothing but copies of `c`.
pub open spec fn is_all(s: Seq<char>, c: char) -> bool {
    forall|i: int| 0 <= i < s.len() ==> #[trigger] s[i] == c
}

/// Copies of `c` go from the end, and from the start, and nothing else does.
pub proof fn lemma_copies_are_trimmed(head: Seq<char>, copies: Seq<char>, c: char)
    requires
        is_all(copies, c),
    ensures
        head.len() == 0 || head.last() != c ==> trim_end_char(head + copies, c) == head,
        head.len() == 0 || head[0] != c ==> trim_start_char(copies + head, c) == head,
{
    if head.len() == 0 || head.last() != c {
        lemma_trim_end_char(head + copies, c, head.len() as int);
        assert((head + copies).take(head.len() as int) =~= head);
    }
    if head.len() == 0 || head[0] != c {
        lemma_trim_start_char(copies + head, c, copies.len() as int);
        assert((copies + head).skip(copies.len() as int) =~= head);
    }
}

proof fn lemma_decimal_is_numeral(n: nat)
    ensures
        is_numeral(decimal(n)),
        digits_value(decimal(n)) == n,
        decimal(n)[0] != '-',
        decimal(n)[0] != '+',
        n > 0 ==> decimal(n)[0] != '0',
    decreases n,
{
    if n < 10 {
        let c = hex_digit(n as int);
        assert(decimal(n) =~= seq![c]);
        assert(decimal(n).drop_last() =~= seq![]);
        assert(digits_value(seq![]) == 0);
    } else {
        let head = decimal(n / 10);
        let c = hex_digit((n % 10) as int);
        lemma_decimal_is_numeral(n / 10);
        assert(decimal(n).drop_last() =~= head);
        assert(decimal(n).last() == c);
        assert forall|i: int| 0 <= i < decimal(n).len() implies is_digit(
            #[trigger] decimal(n)[i],
        ) by {
            if i < head.len() {
                assert(decimal(n)[i] == head[i]);
            }
        }
        assert(decimal(n)[0] == head[0]);
    }
}

/// A number is read back from its decimal digits, with or without a sign, where an
/// `i64` can hold it; and a number but zero has no zero in front.
pub proof fn lemma_decimal_round_trip(n: nat)
    ensures
        digits_value(decimal(n)) == n,
        is_numeral(decimal(n)),
        n > 0 ==> decimal(n)[0] != '0',
        i64_of(decimal(n)) == (if n <= i64::MAX {
            Some(n as i64)
        } else {
            None
        }),
        i64_of(seq!['+'] + decimal(n)) == i64_of(decimal(n)),
        i64_of(seq!['-'] + decimal(n)) == (if n <= 0x8000_0000_0000_0000 {
            Some((-(n as int)) as i64)
        } else {
            None
        }),
{
    lemma_decimal_is_numeral(n);
    assert((seq!['+'] + decimal(n)).skip(1) =~= decimal(n));
    assert((seq!['-'] + decimal(n)).skip(1) =~= decimal(n));
}

/// A text is read as a number only where it is an optional sign and then nothing but
/// decimal digits, at least one.
pub proof fn lemma_only_numerals_are_numbers(s: Seq<char>)
    ensures
        i64_of(s) is Some ==> {
            ||| is_numeral(s)
            ||| s.len() > 1 && (s[0] == '-' || s[0] == '+') && is_numeral(s.drop_first())
        },
{
    if s.len() > 0 {
        assert(s.skip(1) =~= s.drop_first());
    }
}

/// A number has as many hexadecimal digits as asked for, all of them in lower case.
pub proof fn lemma_hex_digits(n: nat, width: nat)
    ensures
        hex(n, width).len() == width,
        forall|i: int|
            0 <= i < width ==> is_digit(#[trigger] hex(n, width)[i]) || 'a' <= hex(n, width)[i]
                <= 'f',
    decreases width,
{
    if width > 0 {
        let head = hex(n / 16, (width - 1) as nat);
        lemma_hex_digits(n / 16, (width - 1) as nat);
        assert forall|i: int| 0 <= i < width implies is_digit(#[trigger] hex(n, width)[i]) || 'a'
            <= hex(n, width)[i] <= 'f' by {
            if i < head.len() {
                assert(hex(n, width)[i] == head[i]);
            }
        }
    }
}

/// In lower case an ASCII text keeps its length and all but its capital letters, of
/// which each becomes its small letter.
pub proof fn lemma_lowered_ascii(s: Seq<char>, i: int)
    requires
        is_ascii_chars(s),
        0 <= i < s.len(),
    ensures
        lowered(s).len() == s.len(),
        !('A' <= lowered(s)[i] <= 'Z'),
        lowered(s)[i] == s[i] <==> !('A' <= s[i] <= 'Z'),
        'A' <= s[i] <= 'Z' ==> lowered(s)[i] as u32 - 'a' as u32 == s[i] as u32 - 'A' as u32,
{
}

/// A text without whitespace at either end is not changed by trimming.
pub proof fn lemma_nothing_to_trim(s: Seq<char>)
    requires
        s.len() > 0,
        !is_space(s[0]),
        !is_space(s.last()),
    ensures
        trimmed(s) == s,
{
}

/// Whitespace around a text that has none at its ends is all that trimming takes.
pub proof fn lemma_whitespace_goes(a: Seq<char>, core: Seq<char>, b: Seq<char>)
    requires
        is_blank(a),
        is_blank(b),
        core.len() > 0,
        !is_space(core[0]),
        !is_space(core.last()),
    ensures
        trimmed(a + core + b) == core,
{
    let s = a + core + b;
    let n = a.len() as int;
    assert forall|i: int| 0 <= i < n implies is_space(#[trigger] s[i]) by {
        assert(s[i] == a[i]);
    }
    assert(s[n] == core[0]);
    lemma_trim_start_skips(s, n);
    let t = s.skip(n);
    let m = core.len() as int;
    assert forall|i: int| m <= i < t.len() implies is_space(#[trigger] t[i]) by {
        assert(t[i] == b[i - m]);
    }
    assert(t[m - 1] == core[m - 1]);
    lemma_trim_end_takes(t, m);
    assert(t.take(m) =~= core);
}

} // verus!
