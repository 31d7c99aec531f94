//! Character and string helpers shared by the validation and formatting code.
use vstd::prelude::*;

verus! {

/// Whether `c` has the Unicode `Alphabetic` property, as `char::is_alphabetic` reports it.
pub uninterp spec fn is_alphabetic_char(c: char) -> bool;

/// Whether `c` has the Unicode `White_Space` property: the 25 code points
/// U+0009..=U+000D, U+0020, U+0085, U+00A0, U+1680, U+2000..=U+200A, U+2028,
/// U+2029, U+202F, U+205F and U+3000. This is what `char::is_whitespace` reports.
pub open spec fn is_whitespace_char(c: char) -> bool {
    let v = c as u32;
    ||| 0x09 <= v <= 0x0D
    ||| v == 0x20
    ||| v == 0x85
    ||| v == 0xA0
    ||| v == 0x1680
    ||| 0x2000 <= v <= 0x200A
    ||| v == 0x2028
    ||| v == 0x2029
    ||| v == 0x202F
    ||| v == 0x205F
    ||| v == 0x3000
}

/// ASCII letters: `A`..=`Z` and `a`..=`z`.
pub open spec fn is_ascii_letter(c: char) -> bool {
    ('A' <= c && c <= 'Z') || ('a' <= c && c <= 'z')
}

/// The full Unicode uppercase mapping of `c`, as `char::to_uppercase` yields it.
pub uninterp spec fn uppercase_of(c: char) -> Seq<char>;

/// `char::is_alphabetic`. The contract names the answer and states what the
/// Unicode `Alphabetic` property gives on the characters the library's rules
/// depend on: among ASCII characters exactly the letters are alphabetic, and no
/// whitespace character is. The Unicode table for other characters is not
/// restated.
#[verifier::external_body]
pub(crate) fn char_is_alphabetic(c: char) -> (b: bool)
    ensures
        b == is_alphabetic_char(c),
        (c as u32) < 128 ==> (b <==> is_ascii_letter(c)),
        is_whitespace_char(c) ==> !b,
{
    c.is_alphabetic()
}

/// Whether `c` is whitespace, as `char::is_whitespace` answers.
pub fn char_is_whitespace(c: char) -> (b: bool)
    ensures
        b == is_whitespace_char(c),
{
    let v = c as u32;
    (0x09 <= v && v <= 0x0D) || v == 0x20 || v == 0x85 || v == 0xA0 || v == 0x1680 || (0x2000 <= v
        && v <= 0x200A) || v == 0x2028 || v == 0x2029 || v == 0x202F || v == 0x205F || v == 0x3000
}

/// `char::to_uppercase`, collected into a `String`. Besides naming the mapping,
/// the contract states what the documentation of `to_uppercase` and
/// `to_ascii_uppercase` gives: the mapping yields at least one character, and
/// on ASCII input it agrees with the ASCII uppercase mapping. The Unicode case
/// tables for other characters are not restated.
#[verifier::external_body]
pub(crate) fn char_to_uppercase(c: char) -> (s: String)
    ensures
        s@ == uppercase_of(c),
        s@.len() >= 1,
        (c as u32) < 128 ==> s@ == seq![ascii_upper_char(c)],
{
    c.to_uppercase().collect::<String>()
}

/// `String::push`: appends one character.
#[verifier::external_body]
pub(crate) fn string_push(s: &mut String, c: char)
    ensures
        final(s)@ == old(s)@.push(c),
{
    s.push(c)
}

/// ASCII lowercase mapping of one character: `A`..=`Z` become `a`..=`z`, all else is kept.
pub open spec fn ascii_lower_char(c: char) -> char {
    if 'A' <= c && c <= 'Z' {
        ((c as u32) + 32) as char
    } else {
        c
    }
}

/// ASCII uppercase mapping of one character: `a`..=`z` become `A`..=`Z`, all else is kept.
pub open spec fn ascii_upper_char(c: char) -> char {
    if 'a' <= c && c <= 'z' {
        ((c as u32) - 32) as char
    } else {
        c
    }
}

/// ASCII lowercase mapping of a whole string.
pub open spec fn ascii_lower(s: Seq<char>) -> Seq<char> {
    s.map_values(|c: char| ascii_lower_char(c))
}

/// `s` without its leading whitespace.
pub open spec fn trim_start(s: Seq<char>) -> Seq<char>
    decreases s.len(),
{
    if s.len() > 0 && is_whitespace_char(s[0]) {
        trim_start(s.drop_first())
    } else {
        s
    }
}

/// `s` without its trailing whitespace.
pub open spec fn trim_end(s: Seq<char>) -> Seq<char>
    decreases s.len(),
{
    if s.len() > 0 && is_whitespace_char(s.last()) {
        trim_end(s.drop_last())
    } else {
        s
    }
}

/// `s` without leading and trailing whitespace.
pub open spec fn trimmed(s: Seq<char>) -> Seq<char> {
    trim_end(trim_start(s))
}

/// The pieces of `s` between occurrences of `sep`, in order; `n` separators give `n + 1`
/// pieces, empty ones included.
pub open spec fn split_seq(s: Seq<char>, sep: char) -> Seq<Seq<char>>
    decreases s.len(),
{
    if s.len() == 0 {
        seq![Seq::<char>::empty()]
    } else {
        let rest = split_seq(s.drop_last(), sep);
        if s.last() == sep {
            rest.push(Seq::<char>::empty())
        } else {
            rest.update(rest.len() - 1, rest.last().push(s.last()))
        }
    }
}

/// The pieces joined back together, with `sep` between neighbours.
pub open spec fn join_seq(pieces: Seq<Seq<char>>, sep: char) -> Seq<char>
    decreases pieces.len(),
{
    if pieces.len() == 0 {
        Seq::<char>::empty()
    } else if pieces.len() == 1 {
        pieces[0]
    } else {
        join_seq(pieces.drop_last(), sep).push(sep) + pieces.last()
    }
}

/// Copies the characters of `s` into a vector.
pub fn chars_of(s: &str) -> (v: Vec<char>)
    ensures
        v@ == s@,
{
    let mut v: Vec<char> = Vec::new();
    for c in it: s.chars()
        invariant
            v@ == it.seq().take(it.index() as int),
            it.seq() == s@,
    {
        v.push(c);
    }
    v
}

/// A `String` holding `chars[from..to]`.
pub fn string_from_range(chars: &Vec<char>, from: usize, to: usize) -> (s: String)
    requires
        from <= to <= chars@.len(),
    ensures
        s@ == chars@.subrange(from as int, to as int),
{
    let mut s = String::new();
    let mut i = from;
    while i < to
        invariant
            from <= i <= to <= chars@.len(),
            s@ == chars@.subrange(from as int, i as int),
        decreases to - i,
    {
        string_push(&mut s, chars[i]);
        assert(chars@.subrange(from as int, i + 1) == chars@.subrange(from as int, i as int).push(chars@[i as int]));
        i = i + 1;
    }
    s
}

proof fn lemma_trim_start_skip(s: Seq<char>, i: int)
    requires
        0 <= i < s.len(),
        trim_start(s) == trim_start(s.skip(i)),
        is_whitespace_char(s[i]),
    ensures
        trim_start(s) == trim_start(s.skip(i + 1)),
{
    assert(s.skip(i).drop_first() == s.skip(i + 1));
}

proof fn lemma_trim_end_take(s: Seq<char>, j: int)
    requires
        0 < j <= s.len(),
        trim_end(s) == trim_end(s.take(j)),
        is_whitespace_char(s[j - 1]),
    ensures
        trim_end(s) == trim_end(s.take(j - 1)),
{
    assert(s.take(j).drop_last() == s.take(j - 1));
}

/// `str::trim`: the text with leading and trailing whitespace removed.
pub fn trim(s: &str) -> (r: String)
    ensures
        r@ == trimmed(s@),
{
    let chars = chars_of(s);
    let n = chars.len();
    let mut i: usize = 0;
    assert(chars@.skip(0) == chars@);
    while i < n && char_is_whitespace(chars[i])
        invariant
            0 <= i <= n == chars@.len(),
            chars@ == s@,
            trim_start(chars@) == trim_start(chars@.skip(i as int)),
        decreases n - i,
    {
        proof {
            lemma_trim_start_skip(chars@, i as int);
        }
        i = i + 1;
    }
    let ghost rest = chars@.skip(i as int);
    assert(trim_start(rest) == rest) by {
        if rest.len() > 0 {
            assert(rest[0] == chars@[i as int]);
        }
    }
    let mut j: usize = n;
    assert(rest.take(rest.len() as int) == rest);
    while j > i && char_is_whitespace(chars[j - 1])
        invariant
            0 <= i <= j <= n == chars@.len(),
            rest == chars@.skip(i as int),
            trim_end(rest) == trim_end(rest.take(j - i)),
        decreases j,
    {
        proof {
            assert(rest[j - i - 1] == chars@[j - 1]);
            lemma_trim_end_take(rest, j - i);
        }
        j = j - 1;
    }
    let ghost kept = rest.take(j - i);
    assert(trim_end(kept) == kept) by {
        if kept.len() > 0 {
            assert(kept.last() == chars@[j - 1]);
        }
    }
    assert(kept == chars@.subrange(i as int, j as int));
    string_from_range(&chars, i, j)
}

/// The decimal digit character for `d` in `0..10`.
pub open spec fn digit_char(d: int) -> char {
    (48 + d) as char
}

/// Decimal notation of a natural number, without leading zeros.
pub open spec fn decimal(n: nat) -> Seq<char>
    decreases n,
{
    if n < 10 {
        seq![digit_char(n as int)]
    } else {
        decimal(n / 10).push(digit_char((n % 10) as int))
    }
}

/// Decimal notation of an integer: a `-` before the digits of a negative one.
pub open spec fn signed_decimal(n: int) -> Seq<char> {
    if n < 0 {
        seq!['-'] + decimal((-n) as nat)
    } else {
        decimal(n as nat)
    }
}

/// `digits` with `0`s put in front until it is `width` characters long.
pub open spec fn zero_pad(digits: Seq<char>, width: nat) -> Seq<char> {
    if digits.len() >= width {
        digits
    } else {
        Seq::new((width - digits.len()) as nat, |k: int| '0') + digits
    }
}

/// What `format!("{:0w$}", n)` writes for an integer: the sign first, then the digits
/// padded with zeros so that sign and digits together take `width` characters.
pub open spec fn padded_decimal(n: int, width: nat) -> Seq<char> {
    if n < 0 {
        seq!['-'] + zero_pad(decimal((-n) as nat), if width > 0 { (width - 1) as nat } else { 0 })
    } else {
        zero_pad(decimal(n as nat), width)
    }
}

/// Appends the decimal digits of `n`.
pub fn push_decimal(s: &mut String, n: u64)
    ensures
        final(s)@ == old(s)@ + decimal(n as nat),
    decreases n,
{
    if n >= 10 {
        push_decimal(s, n / 10);
    }
    let d: u8 = (n % 10) as u8;
    string_push(s, (48u8 + d) as char);
}

/// The number of decimal digits of `n`.
fn decimal_len(n: u64) -> (len: u64)
    ensures
        len == decimal(n as nat).len(),
        1 <= len <= 1 + n,
    decreases n,
{
    if n >= 10 {
        decimal_len(n / 10) + 1
    } else {
        1
    }
}

/// The magnitude of `n`, as an unsigned number.
fn magnitude(n: i64) -> (m: u64)
    ensures
        m as int == if n < 0 { -n } else { n as int },
{
    if n >= 0 {
        n as u64
    } else if n == i64::MIN {
        9223372036854775808u64
    } else {
        (-n) as u64
    }
}

/// Appends `n` as `format!("{:0width$}", n)` writes it.
pub fn push_padded_decimal(s: &mut String, n: i64, width: usize)
    ensures
        final(s)@ == old(s)@ + padded_decimal(n as int, width as nat),
{
    let m = magnitude(n);
    let ghost digits = decimal(m as nat);
    let mut target = width;
    if n < 0 {
        string_push(s, '-');
        target = if width > 0 { width - 1 } else { 0 };
    }
    let ghost start = s@;
    let len = decimal_len(m);
    let target = target as u64;
    let mut k = len;
    while k < target
        invariant
            len <= k <= target || (target < len && k == len),
            len == digits.len(),
            s@ == start + Seq::new((k - len) as nat, |i: int| '0'),
        decreases target - k,
    {
        string_push(s, '0');
        assert(Seq::new((k + 1 - len) as nat, |i: int| '0') == Seq::new((k - len) as nat, |i: int| '0').push('0'));
        k = k + 1;
    }
    push_decimal(s, m);
    proof {
        if len >= target {
            assert(Seq::new((k - len) as nat, |i: int| '0') == Seq::<char>::empty());
            assert(s@ == start + digits);
        }
    }
}

/// `i64::to_string`: the decimal notation of `n`.
pub fn i64_to_string(n: i64) -> (r: String)
    ensures
        r@ == signed_decimal(n as int),
{
    let mut s = String::new();
    if n < 0 {
        string_push(&mut s, '-');
    }
    push_decimal(&mut s, magnitude(n));
    s
}

/// `str::to_ascii_lowercase`.
pub fn to_ascii_lowercase(s: &str) -> (r: String)
    ensures
        r@ == ascii_lower(s@),
{
    let chars = chars_of(s);
    let mut r = String::new();
    let mut i: usize = 0;
    while i < chars.len()
        invariant
            0 <= i <= chars@.len(),
            chars@ == s@,
            r@ == ascii_lower(chars@.take(i as int)),
        decreases chars@.len() - i,
    {
        let c = chars[i];
        let lower = if 'A' <= c && c <= 'Z' {
            ((c as u8) + 32) as char
        } else {
            c
        };
        string_push(&mut r, lower);
        assert(ascii_lower(chars@.take(i + 1)) == ascii_lower(chars@.take(i as int)).push(ascii_lower_char(c)));
        i = i + 1;
    }
    assert(chars@.take(chars@.len() as int) == chars@);
    r
}

/// `str::split` on one character: the pieces between occurrences of `sep`.
pub fn split_on(s: &str, sep: char) -> (pieces: Vec<String>)
    ensures
        pieces.deep_view() == split_seq(s@, sep),
{
    let chars = chars_of(s);
    let mut pieces: Vec<String> = Vec::new();
    let mut cur = String::new();
    let mut i: usize = 0;
    assert(chars@.take(0) == Seq::<char>::empty());
    while i < chars.len()
        invariant
            0 <= i <= chars@.len(),
            chars@ == s@,
            pieces.deep_view().push(cur@) == split_seq(chars@.take(i as int), sep),
        decreases chars@.len() - i,
    {
        let c = chars[i];
        let ghost before = split_seq(chars@.take(i as int), sep);
        assert(chars@.take(i + 1).drop_last() == chars@.take(i as int));
        if c == sep {
            pieces.push(cur);
            cur = String::new();
        } else {
            string_push(&mut cur, c);
        }
        assert(pieces.deep_view().push(cur@) == split_seq(chars@.take(i + 1), sep));
        i = i + 1;
    }
    assert(chars@.take(chars@.len() as int) == chars@);
    pieces.push(cur);
    pieces
}

} // verus!
