//! Character-level text helpers shared by the parsers and formatters:
//! substring search, Unicode whitespace splitting, unsigned decimal
//! parsing and rendering, and UTF-8 byte lengths.

use vstd::prelude::*;
use vstd::string::*;

verus! {

// ---------------------------------------------------------------------------
// Substring search
// ---------------------------------------------------------------------------

/// `needle` occurs in `hay` starting at index `i`.
pub open spec fn occurs_at(hay: Seq<char>, needle: Seq<char>, i: int) -> bool {
    &&& 0 <= i
    &&& i + needle.len() <= hay.len()
    &&& hay.subrange(i, i + needle.len()) == needle
}

/// `needle` occurs somewhere in `hay` (as `str::contains` decides).
pub open spec fn seq_contains(hay: Seq<char>, needle: Seq<char>) -> bool {
    exists|i: int| occurs_at(hay, needle, i)
}

/// The characters of a string slice, in order.
pub fn str_chars(s: &str) -> (v: Vec<char>)
    ensures
        v@ == s@,
{
    let n = s.unicode_len();
    let mut v: Vec<char> = Vec::new();
    let mut i: usize = 0;
    while i < n
        invariant
            n == s@.len(),
            i <= n,
            v@ == s@.take(i as int),
        decreases n - i,
    {
        let c = s.get_char(i);
        v.push(c);
        assert(s@.take(i as int + 1) =~= s@.take(i as int).push(c));
        i = i + 1;
    }
    assert(s@.take(n as int) =~= s@);
    v
}

/// Appends one character to a string (`String::push`).
#[verifier::external_body]
pub(crate) fn push_char(s: &mut String, c: char)
    ensures
        final(s)@ == old(s)@.push(c),
{
    s.push(c);
}

/// Appends a sequence of characters to a string.
pub fn push_chars(s: &mut String, cs: &Vec<char>)
    ensures
        final(s)@ == old(s)@ + cs@,
{
    let ghost s0 = s@;
    let mut i: usize = 0;
    while i < cs.len()
        invariant
            i <= cs.len(),
            s@ == s0 + cs@.take(i as int),
        decreases cs.len() - i,
    {
        push_char(s, cs[i]);
        assert(cs@.take(i as int + 1) =~= cs@.take(i as int).push(cs@[i as int]));
        i = i + 1;
    }
    assert(cs@.take(cs.len() as int) =~= cs@);
}

/// Builds a string holding the given characters.
pub fn string_from_chars(cs: &Vec<char>) -> (s: String)
    ensures
        s@ == cs@,
{
    let mut s = String::new();
    push_chars(&mut s, cs);
    assert(Seq::<char>::empty() + cs@ =~= cs@);
    s
}

/// Appends a string slice to a string.
pub fn push_str(s: &mut String, t: &str)
    ensures
        final(s)@ == old(s)@ + t@,
{
    let cs = str_chars(t);
    push_chars(s, &cs);
}

/// Two character vectors hold the same characters.
pub fn chars_eq(a: &Vec<char>, b: &Vec<char>) -> (r: bool)
    ensures
        r == (a@ == b@),
{
    if a.len() != b.len() {
        return false;
    }
    let mut i: usize = 0;
    while i < a.len()
        invariant
            a.len() == b.len(),
            i <= a.len(),
            forall|k: int| 0 <= k < i ==> a@[k] == b@[k],
        decreases a.len() - i,
    {
        if a[i] != b[i] {
            return false;
        }
        i = i + 1;
    }
    assert(a@ =~= b@);
    true
}

/// Two string slices hold the same characters.
pub fn str_eq(a: &str, b: &str) -> (r: bool)
    ensures
        r == (a@ == b@),
{
    let x = str_chars(a);
    let y = str_chars(b);
    chars_eq(&x, &y)
}

/// `needle` occurs in `hay` at index `i`.
pub fn chars_occur_at(hay: &Vec<char>, needle: &Vec<char>, i: usize) -> (r: bool)
    requires
        i + needle.len() <= hay.len(),
    ensures
        r == occurs_at(hay@, needle@, i as int),
{
    let n = needle.len();
    let mut k: usize = 0;
    while k < n
        invariant
            n == needle.len(),
            i + n <= hay.len(),
            k <= n,
            forall|m: int| 0 <= m < k ==> hay@[i + m] == needle@[m],
        decreases n - k,
    {
        if hay[i + k] != needle[k] {
            assert(hay@.subrange(i as int, i + n)[k as int] != needle@[k as int]);
            return false;
        }
        k = k + 1;
    }
    assert(hay@.subrange(i as int, i + n) =~= needle@);
    true
}

/// `needle` occurs somewhere in `hay`.
pub fn chars_contain(hay: &Vec<char>, needle: &Vec<char>) -> (r: bool)
    ensures
        r == seq_contains(hay@, needle@),
{
    if needle.len() > hay.len() {
        return false;
    }
    if needle.len() == 0 {
        assert(hay@.subrange(0, 0) =~= needle@);
        assert(occurs_at(hay@, needle@, 0));
        return true;
    }
    let last = hay.len() - needle.len();
    let mut i: usize = 0;
    while i <= last
        invariant
            last == hay.len() - needle.len(),
            0 < needle.len() <= hay.len(),
            i <= last + 1,
            forall|j: int| 0 <= j < i ==> !occurs_at(hay@, needle@, j),
        decreases last + 1 - i,
    {
        if chars_occur_at(hay, needle, i) {
            return true;
        }
        i = i + 1;
    }
    false
}

/// `pat` occurs in `s` (`str::contains`).
pub fn str_contains(s: &str, pat: &str) -> (r: bool)
    ensures
        r == seq_contains(s@, pat@),
{
    let a = str_chars(s);
    let b = str_chars(pat);
    chars_contain(&a, &b)
}

// ---------------------------------------------------------------------------
// Unicode whitespace and splitting
// ---------------------------------------------------------------------------

/// The Unicode `White_Space` property (`char::is_whitespace`).
pub open spec fn is_ws(c: char) -> bool {
    let u = c as u32;
    ||| 0x09 <= u <= 0x0D
    ||| u == 0x20
    ||| u == 0x85
    ||| u == 0xA0
    ||| u == 0x1680
    ||| 0x2000 <= u <= 0x200A
    ||| u == 0x2028
    ||| u == 0x2029
    ||| u == 0x202F
    ||| u == 0x205F
    ||| u == 0x3000
}

/// Decides `is_ws`.
pub fn char_is_ws(c: char) -> (r: bool)
    ensures
        r == is_ws(c),
{
    let u = c as u32;
    (0x09 <= u && u <= 0x0D) || u == 0x20 || u == 0x85 || u == 0xA0 || u == 0x1680 || (0x2000
        <= u && u <= 0x200A) || u == 0x2028 || u == 0x2029 || u == 0x202F || u == 0x205F || u
        == 0x3000
}

/// Left-to-right scan of `s` for whitespace splitting: the completed
/// tokens so far and the token being read.
pub open spec fn ws_scan(s: Seq<char>) -> (Seq<Seq<char>>, Seq<char>)
    decreases s.len(),
{
    if s.len() == 0 {
        (Seq::empty(), Seq::empty())
    } else {
        let (toks, cur) = ws_scan(s.drop_last());
        let c = s.last();
        if is_ws(c) {
            if cur.len() > 0 {
                (toks.push(cur), Seq::empty())
            } else {
                (toks, cur)
            }
        } else {
            (toks, cur.push(c))
        }
    }
}

/// The maximal runs of non-whitespace characters of `s`, in order
/// (`str::split_whitespace`).
pub open spec fn split_ws(s: Seq<char>) -> Seq<Seq<char>> {
    let (toks, cur) = ws_scan(s);
    if cur.len() > 0 {
        toks.push(cur)
    } else {
        toks
    }
}

/// The character sequences held by a vector of character vectors.
pub open spec fn char_views(v: Seq<Vec<char>>) -> Seq<Seq<char>> {
    v.map_values(|x: Vec<char>| x@)
}

/// Splits `s` into its whitespace-separated tokens.
pub fn split_whitespace(s: &Vec<char>) -> (toks: Vec<Vec<char>>)
    ensures
        char_views(toks@) == split_ws(s@),
{
    let mut toks: Vec<Vec<char>> = Vec::new();
    let mut cur: Vec<char> = Vec::new();
    let mut i: usize = 0;
    while i < s.len()
        invariant
            i <= s.len(),
            (char_views(toks@), cur@) == ws_scan(s@.take(i as int)),
        decreases s.len() - i,
    {
        let c = s[i];
        assert(s@.take(i as int + 1).drop_last() =~= s@.take(i as int));
        if char_is_ws(c) {
            if cur.len() > 0 {
                let ghost old_toks = toks@;
                toks.push(cur);
                cur = Vec::new();
                assert(char_views(toks@) =~= char_views(old_toks).push(
                    ws_scan(s@.take(i as int)).1,
                ));
            }
        } else {
            cur.push(c);
        }
        i = i + 1;
    }
    assert(s@.take(s.len() as int) =~= s@);
    if cur.len() > 0 {
        let ghost old_toks = toks@;
        toks.push(cur);
        assert(char_views(toks@) =~= char_views(old_toks).push(ws_scan(s@).1));
    }
    toks
}

// ---------------------------------------------------------------------------
// Unsigned decimal numbers
// ---------------------------------------------------------------------------

/// An ASCII decimal digit.
pub open spec fn is_digit(c: char) -> bool {
    48 <= (c as u32) <= 57
}

/// The value of an ASCII decimal digit.
pub open spec fn digit_value(c: char) -> nat {
    ((c as u32) - 48) as nat
}

/// The value of a sequence of decimal digits, most significant first.
pub open spec fn digits_value(s: Seq<char>) -> nat
    decreases s.len(),
{
    if s.len() == 0 {
        0
    } else {
        digits_value(s.drop_last()) * 10 + digit_value(s.last())
    }
}

/// All characters of `s` are decimal digits.
pub open spec fn all_digits(s: Seq<char>) -> bool {
    forall|i: int| 0 <= i < s.len() ==> is_digit(#[trigger] s[i])
}

/// What `str::parse::<u64>` yields: an optional `+` sign followed by at
/// least one decimal digit, with a value that fits in 64 bits.
pub open spec fn parse_u64_spec(t: Seq<char>) -> Option<u64> {
    let d = if t.len() > 0 && t[0] == '+' {
        t.drop_first()
    } else {
        t
    };
    if d.len() > 0 && all_digits(d) && digits_value(d) <= u64::MAX {
        Some(digits_value(d) as u64)
    } else {
        None
    }
}

proof fn lemma_digits_value_prefix_le(s: Seq<char>, k: int)
    requires
        0 <= k <= s.len(),
    ensures
        digits_value(s.take(k)) <= digits_value(s),
    decreases s.len() - k,
{
    if k < s.len() {
        lemma_digits_value_prefix_le(s, k + 1);
        assert(s.take(k + 1).drop_last() =~= s.take(k));
    } else {
        assert(s.take(k) =~= s);
    }
}

/// Parses an unsigned 64-bit decimal number (`str::parse::<u64>`).
pub fn parse_u64(t: &Vec<char>) -> (r: Option<u64>)
    ensures
        r == parse_u64_spec(t@),
{
    let start: usize = if t.len() > 0 && t[0] == '+' {
        1
    } else {
        0
    };
    let ghost d = if t@.len() > 0 && t@[0] == '+' {
        t@.drop_first()
    } else {
        t@
    };
    assert(d =~= t@.subrange(start as int, t@.len() as int));
    if start >= t.len() {
        return None;
    }
    let mut v: u64 = 0;
    let mut i: usize = start;
    while i < t.len()
        invariant
            start <= i <= t.len(),
            d =~= t@.subrange(start as int, t@.len() as int),
            d == (if t@.len() > 0 && t@[0] == '+' {
                t@.drop_first()
            } else {
                t@
            }),
            all_digits(d.take(i - start)),
            v as nat == digits_value(d.take(i - start)),
        decreases t.len() - i,
    {
        let c = t[i];
        let u = c as u32;
        let ghost k = i - start;
        assert(d.take(k + 1).drop_last() =~= d.take(k));
        assert(d[k] == c);
        assert(d.take(k + 1).last() == c);
        if u < 48 || u > 57 {
            assert(!is_digit(d[k]));
            assert(!all_digits(d));
            return None;
        }
        let dv: u64 = (u - 48) as u64;
        assert(digit_value(c) == dv);
        if v > (u64::MAX - dv) / 10 {
            assert(digits_value(d.take(k + 1)) == digits_value(d.take(k)) * 10 + digit_value(c));
            assert(v * 10 + dv > u64::MAX) by (nonlinear_arith)
                requires
                    v > (u64::MAX - dv) / 10,
                    dv <= 9,
            ;
            proof {
                lemma_digits_value_prefix_le(d, k + 1);
            }
            assert(digits_value(d) > u64::MAX);
            return None;
        }
        assert forall|m: int| 0 <= m < k + 1 implies is_digit(#[trigger] d.take(k + 1)[m]) by {
            if m < k {
                assert(d.take(k + 1)[m] == d.take(k)[m]);
            }
        }
        assert(v * 10 + dv <= u64::MAX) by (nonlinear_arith)
            requires
                v <= (u64::MAX - dv) / 10,
                dv <= 9,
        ;
        v = v * 10 + dv;
        i = i + 1;
    }
    assert(d.take(t.len() - start) =~= d);
    Some(v)
}

/// The decimal digits of `n`, most significant first, without leading zeros
/// (`"0"` for zero), as `{}` formatting renders an unsigned integer.
pub open spec fn decimal(n: nat) -> Seq<char>
    decreases n,
{
    if n < 10 {
        seq![(48 + n) as char]
    } else {
        decimal(n / 10).push((48 + n % 10) as char)
    }
}

/// What is rendered in decimal reads back as the same number: the
/// rendering of `n` is what `str::parse::<u64>` accepts, with value `n`.
pub proof fn lemma_decimal_parses_back(n: u64)
    ensures
        parse_u64_spec(decimal(n as nat)) == Some(n),
{
    lemma_decimal_digits(n as nat);
    let d = decimal(n as nat);
    assert(d[0] != '+') by {
        assert(is_digit(d[0]));
    }
}

/// The decimal rendering of `n` is a non-empty run of digits whose value is
/// `n`.
pub proof fn lemma_decimal_digits(n: nat)
    ensures
        decimal(n).len() > 0,
        all_digits(decimal(n)),
        digits_value(decimal(n)) == n,
    decreases n,
{
    if n < 10 {
        let d = decimal(n);
        assert(d =~= seq![(48 + n) as char]);
        assert(((48 + n) as char) as u32 == 48 + n);
        assert(d.drop_last() =~= Seq::<char>::empty());
        assert(digits_value(d.drop_last()) == 0);
    } else {
        lemma_decimal_digits(n / 10);
        let c = (48 + n % 10) as char;
        assert((c as u32) == 48 + n % 10);
        let d = decimal(n);
        assert(d == decimal(n / 10).push(c));
        assert(d.drop_last() =~= decimal(n / 10));
        assert(d.last() == c);
        assert forall|i: int| 0 <= i < d.len() implies is_digit(#[trigger] d[i]) by {
            if i < d.len() - 1 {
                assert(d[i] == decimal(n / 10)[i]);
            }
        }
        assert(digits_value(d) == digits_value(decimal(n / 10)) * 10 + digit_value(c));
    }
}

/// Renders an unsigned integer in decimal.
pub fn u64_to_decimal(n: u64) -> (s: String)
    ensures
        s@ == decimal(n as nat),
{
    let mut digits: Vec<char> = Vec::new();
    let mut m: u64 = n;
    // digits are collected least significant first
    let ghost mut done: nat = 0;
    while m >= 10
        invariant
            decimal(n as nat) == decimal(m as nat) + digits@.reverse(),
        decreases m,
    {
        let d = m % 10;
        let c = char_of_digit(d);
        let ghost old_digits = digits@;
        digits.push(c);
        assert(decimal(m as nat) == decimal((m / 10) as nat).push(c));
        assert(digits@.reverse() =~= seq![c] + old_digits.reverse());
        assert(decimal(n as nat) =~= decimal((m / 10) as nat) + digits@.reverse());
        m = m / 10;
    }
    let c = char_of_digit(m);
    let mut out: Vec<char> = Vec::new();
    out.push(c);
    assert(decimal(m as nat) =~= seq![c]);
    let mut k: usize = digits.len();
    while k > 0
        invariant
            k <= digits.len(),
            decimal(n as nat) == out@ + digits@.take(k as int).reverse(),
        decreases k,
    {
        let ghost before = out@;
        out.push(digits[k - 1]);
        assert(digits@.take(k as int).reverse() =~= seq![digits@[k - 1]] + digits@.take(
            k - 1,
        ).reverse());
        assert(out@ =~= before + seq![digits@[k - 1]]);
        k = k - 1;
    }
    assert(digits@.take(0).reverse() =~= Seq::<char>::empty());
    assert(out@ =~= decimal(n as nat));
    string_from_chars(&out)
}

fn char_of_digit(d: u64) -> (c: char)
    requires
        d < 10,
    ensures
        c == (48 + d) as char,
{
    if d == 0 {
        '0'
    } else if d == 1 {
        '1'
    } else if d == 2 {
        '2'
    } else if d == 3 {
        '3'
    } else if d == 4 {
        '4'
    } else if d == 5 {
        '5'
    } else if d == 6 {
        '6'
    } else if d == 7 {
        '7'
    } else if d == 8 {
        '8'
    } else {
        '9'
    }
}

// ---------------------------------------------------------------------------
// UTF-8 lengths
// ---------------------------------------------------------------------------

/// Number of bytes of the UTF-8 encoding of `c`.
pub open spec fn utf8_width(c: char) -> nat {
    let u = c as u32;
    if u <= 0x7F {
        1
    } else if u <= 0x7FF {
        2
    } else if u <= 0xFFFF {
        3
    } else {
        4
    }
}

/// Number of bytes of the UTF-8 encoding of `s` (what `str::len` returns).
pub open spec fn utf8_len(s: Seq<char>) -> nat
    decreases s.len(),
{
    if s.len() == 0 {
        0
    } else {
        utf8_len(s.drop_last()) + utf8_width(s.last())
    }
}

/// Computes `utf8_width`.
pub fn char_utf8_width(c: char) -> (w: usize)
    ensures
        w == utf8_width(c),
{
    let u = c as u32;
    if u <= 0x7F {
        1
    } else if u <= 0x7FF {
        2
    } else if u <= 0xFFFF {
        3
    } else {
        4
    }
}

/// `utf8_len` is the length of `encode_utf8`, the byte view that `str::len`
/// reports.
pub proof fn lemma_utf8_len_is_encoded_len(s: Seq<char>)
    ensures
        utf8_len(s) == vstd::utf8::encode_utf8(s).len(),
    decreases s.len(),
{
    if s.len() > 0 {
        lemma_utf8_len_is_encoded_len(s.drop_first());
        lemma_utf8_len_first(s);
        let c = s[0];
        vstd::utf8::char_is_scalar(c);
    }
}

proof fn lemma_utf8_len_first(s: Seq<char>)
    requires
        s.len() > 0,
    ensures
        utf8_len(s) == utf8_width(s[0]) + utf8_len(s.drop_first()),
    decreases s.len(),
{
    if s.len() > 1 {
        lemma_utf8_len_first(s.drop_last());
        assert(s.drop_last().drop_first() =~= s.drop_first().drop_last());
        assert(s.drop_first().last() == s.last());
        assert(utf8_len(s.drop_first()) == utf8_len(s.drop_first().drop_last()) + utf8_width(
            s.drop_first().last(),
        ));
    } else {
        assert(s.drop_first().len() == 0);
        assert(s.drop_last().len() == 0);
        assert(utf8_len(s.drop_first()) == 0);
        assert(utf8_len(s.drop_last()) == 0);
        assert(s.last() == s[0]);
    }
}

/// The decimal rendering of a signed integer: a `-` before the digits of its
/// magnitude when it is negative, as `{}` formatting renders it.
pub open spec fn signed_decimal(n: int) -> Seq<char> {
    if n < 0 {
        "-"@ + decimal((-n) as nat)
    } else {
        decimal(n as nat)
    }
}

/// Renders a signed integer in decimal.
pub fn i64_to_decimal(n: i64) -> (s: String)
    ensures
        s@ == signed_decimal(n as int),
{
    if n < 0 {
        let wide: i128 = n as i128;
        let magnitude: u64 = (0i128 - wide) as u64;
        let mut s = String::from_str("-");
        let d = u64_to_decimal(magnitude);
        push_str(&mut s, d.as_str());
        s
    } else {
        u64_to_decimal(n as u64)
    }
}

/// How many times `c` occurs in `s`.
pub open spec fn count_char(s: Seq<char>, c: char) -> nat
    decreases s.len(),
{
    if s.len() == 0 {
        0
    } else {
        count_char(s.drop_last(), c) + if s.last() == c {
            1nat
        } else {
            0nat
        }
    }
}

/// Counting a character is additive over concatenation.
pub broadcast proof fn lemma_count_char_concat(a: Seq<char>, b: Seq<char>, c: char)
    ensures
        #[trigger] count_char(a + b, c) == count_char(a, c) + count_char(b, c),
    decreases b.len(),
{
    if b.len() == 0 {
        assert(a + b =~= a);
    } else {
        lemma_count_char_concat(a, b.drop_last(), c);
        assert((a + b).drop_last() =~= a + b.drop_last());
        assert((a + b).last() == b.last());
    }
}

/// Whether `c` does not occur in `s`.
pub open spec fn lacks(s: Seq<char>, c: char) -> bool {
    forall|i: int| 0 <= i < s.len() ==> #[trigger] s[i] != c
}

/// A character that does not occur is counted zero times.
pub broadcast proof fn lemma_count_char_lacking(s: Seq<char>, c: char)
    requires
        lacks(s, c),
    ensures
        #[trigger] count_char(s, c) == 0,
    decreases s.len(),
{
    if s.len() > 0 {
        assert(lacks(s.drop_last(), c)) by {
            assert forall|i: int| 0 <= i < s.drop_last().len() implies #[trigger] s.drop_last()[i]
                != c by {
                assert(s.drop_last()[i] == s[i]);
            }
        }
        lemma_count_char_lacking(s.drop_last(), c);
        assert(s.last() == s[s.len() - 1]);
    }
}

/// Whether every character of a text is ASCII (below `0x80`).
pub open spec fn all_ascii(s: Seq<char>) -> bool {
    forall|i: int| 0 <= i < s.len() ==> (#[trigger] s[i] as u32) < 0x80
}

/// An ASCII text takes one byte per character.
pub proof fn lemma_utf8_len_ascii(s: Seq<char>)
    requires
        all_ascii(s),
    ensures
        utf8_len(s) == s.len(),
    decreases s.len(),
{
    if s.len() > 0 {
        assert(all_ascii(s.drop_last())) by {
            assert forall|i: int| 0 <= i < s.drop_last().len() implies (#[trigger] s.drop_last()[i]
                as u32) < 0x80 by {
                assert(s.drop_last()[i] == s[i]);
            }
        }
        lemma_utf8_len_ascii(s.drop_last());
        assert((s[s.len() - 1] as u32) < 0x80);
    }
}

/// `utf8_len` of a prefix grows with the prefix.
pub proof fn lemma_utf8_len_take_mono(s: Seq<char>, i: int, j: int)
    requires
        0 <= i <= j <= s.len(),
    ensures
        utf8_len(s.take(i)) + (j - i) <= utf8_len(s.take(j)),
    decreases j - i,
{
    if i < j {
        lemma_utf8_len_take_mono(s, i, j - 1);
        assert(s.take(j).drop_last() =~= s.take(j - 1));
    }
}

} // verus!
