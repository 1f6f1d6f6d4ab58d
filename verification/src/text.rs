//! Character-level text handling: conversions, whitespace trimming, number
//! formatting and parsing, the one-line escaping of stored items, and line
//! splitting.
use vstd::prelude::*;

verus! {

// ---------------------------------------------------------------------------
// Conversions between strings and character vectors
// ---------------------------------------------------------------------------

/// Collects the characters of a string slice.
pub fn chars_of(s: &str) -> (r: Vec<char>)
    ensures
        r@ == s@,
{
    let mut r: Vec<char> = Vec::new();
    for c in it: s.chars()
        invariant
            r@ == it.seq().take(it.index()),
            it.seq() == s@,
    {
        r.push(c);
    }
    r
}

/// `String::from_iter` over the characters of a vector: the string holds exactly those
/// characters, in order.
#[verifier::external_body]
pub fn string_from_chars(v: &Vec<char>) -> (s: String)
    ensures
        s@ == v@,
{
    String::from_iter(v)
}

/// Appends all of `src` to `dst`.
pub fn append_chars(dst: &mut Vec<char>, src: &Vec<char>)
    ensures
        final(dst)@ == old(dst)@ + src@,
{
    let ghost start = dst@;
    for i in 0..src.len()
        invariant
            dst@ == start + src@.take(i as int),
    {
        dst.push(src[i]);
        assert(src@.take(i + 1) =~= src@.take(i as int).push(src@[i as int]));
    }
    assert(src@.take(src.len() as int) =~= src@);
}

/// Appends the characters of a string slice to `dst`.
pub fn append_str(dst: &mut Vec<char>, s: &str)
    ensures
        final(dst)@ == old(dst)@ + s@,
{
    let v = chars_of(s);
    append_chars(dst, &v);
}

/// The characters of `s` from index `lo` up to (not including) `hi`.
pub fn sub_chars(s: &Vec<char>, lo: usize, hi: usize) -> (r: Vec<char>)
    requires
        lo <= hi <= s.len(),
    ensures
        r@ == s@.subrange(lo as int, hi as int),
{
    let mut r: Vec<char> = Vec::new();
    for i in lo..hi
        invariant
            lo <= hi <= s.len(),
            r@ == s@.subrange(lo as int, i as int),
    {
        r.push(s[i]);
        assert(s@.subrange(lo as int, i + 1) =~= s@.subrange(lo as int, i as int).push(s@[i as int]));
    }
    r
}

/// Whether two character vectors hold the same characters.
pub fn chars_eq(a: &Vec<char>, b: &Vec<char>) -> (r: bool)
    ensures
        r == (a@ == b@),
{
    if a.len() != b.len() {
        return false;
    }
    for i in 0..a.len()
        invariant
            a.len() == b.len(),
            forall|j: int| 0 <= j < i ==> a@[j] == b@[j],
    {
        if a[i] != b[i] {
            return false;
        }
    }
    assert(a@ =~= b@);
    true
}

/// Whether a character vector holds exactly the characters of a string slice.
pub fn chars_eq_str(a: &Vec<char>, s: &str) -> (r: bool)
    ensures
        r == (a@ == s@),
{
    let b = chars_of(s);
    chars_eq(a, &b)
}

// ---------------------------------------------------------------------------
// Character classes
// ---------------------------------------------------------------------------

/// The Unicode `White_Space` property, as `char::is_whitespace` decides it.
pub open spec fn is_whitespace_spec(c: char) -> bool {
    let u = c as u32;
    ||| 9 <= u <= 13
    ||| u == 32
    ||| u == 0x85
    ||| u == 0xA0
    ||| u == 0x1680
    ||| 0x2000 <= u <= 0x200A
    ||| u == 0x2028
    ||| u == 0x2029
    ||| u == 0x202F
    ||| u == 0x205F
    ||| u == 0x3000
}

pub fn is_whitespace(c: char) -> (b: bool)
    ensures
        b == is_whitespace_spec(c),
{
    let u = c as u32;
    (9 <= u && u <= 13) || u == 32 || u == 0x85 || u == 0xA0 || u == 0x1680 || (0x2000 <= u && u
        <= 0x200A) || u == 0x2028 || u == 0x2029 || u == 0x202F || u == 0x205F || u == 0x3000
}

/// An ASCII decimal digit.
pub open spec fn is_digit_spec(c: char) -> bool {
    48 <= (c as u32) <= 57
}

pub open spec fn digit_value(c: char) -> nat {
    ((c as u32) - 48) as nat
}

/// The ASCII digit that stands for `d` (for `d < 10`).
pub open spec fn digit_char(d: nat) -> char {
    ((48 + d) as u32) as char
}

/// The upper-case ASCII hexadecimal digit that stands for `d` (for `d < 16`).
pub open spec fn hex_digit_char(d: nat) -> char {
    if d < 10 {
        digit_char(d)
    } else {
        ((55 + d) as u32) as char
    }
}

fn digit(d: u64) -> (c: char)
    requires
        d < 10,
    ensures
        c == digit_char(d as nat),
{
    let b: u8 = 48u8 + d as u8;
    b as char
}

fn hex_digit(d: u64) -> (c: char)
    requires
        d < 16,
    ensures
        c == hex_digit_char(d as nat),
{
    if d < 10 {
        digit(d)
    } else {
        let b: u8 = 55u8 + d as u8;
        b as char
    }
}

// ---------------------------------------------------------------------------
// Number formatting
// ---------------------------------------------------------------------------

/// The decimal notation of `n`, without leading zeros (as `format!("{}", n)` writes it).
pub open spec fn decimal(n: nat) -> Seq<char>
    decreases n,
{
    if n < 10 {
        seq![digit_char(n)]
    } else {
        decimal(n / 10).push(digit_char(n % 10))
    }
}

/// The upper-case hexadecimal notation of `n`, without leading zeros.
pub open spec fn hex(n: nat) -> Seq<char>
    decreases n,
{
    if n < 16 {
        seq![hex_digit_char(n)]
    } else {
        hex(n / 16).push(hex_digit_char(n % 16))
    }
}

/// Upper-case hexadecimal, zero-padded to at least two digits (`{:02X}`).
pub open spec fn hex2(n: nat) -> Seq<char> {
    if n < 16 {
        seq!['0', hex_digit_char(n)]
    } else {
        hex(n)
    }
}

/// Appends the decimal notation of `n`.
pub fn push_decimal(out: &mut Vec<char>, n: u64)
    ensures
        final(out)@ == old(out)@ + decimal(n as nat),
    decreases n,
{
    if n >= 10 {
        push_decimal(out, n / 10);
    }
    out.push(digit(n % 10));
}

/// Appends the upper-case hexadecimal notation of `n`.
pub fn push_hex(out: &mut Vec<char>, n: u64)
    ensures
        final(out)@ == old(out)@ + hex(n as nat),
    decreases n,
{
    if n >= 16 {
        push_hex(out, n / 16);
    }
    out.push(hex_digit(n % 16));
}

/// Appends the hexadecimal notation of `n`, zero-padded to two digits.
pub fn push_hex2(out: &mut Vec<char>, n: u64)
    ensures
        final(out)@ == old(out)@ + hex2(n as nat),
{
    if n < 16 {
        out.push('0');
        out.push(hex_digit(n));
    } else {
        push_hex(out, n);
    }
}

/// The decimal notation of a number as a string.
pub fn decimal_string(n: u64) -> (s: String)
    ensures
        s@ == decimal(n as nat),
{
    let mut v: Vec<char> = Vec::new();
    push_decimal(&mut v, n);
    string_from_chars(&v)
}

// ---------------------------------------------------------------------------
// Number parsing (as `str::parse` reads an unsigned integer)
// ---------------------------------------------------------------------------

pub open spec fn all_digits(s: Seq<char>) -> bool {
    forall|i: int| 0 <= i < s.len() ==> is_digit_spec(#[trigger] s[i])
}

/// The value of a sequence of decimal digits.
pub open spec fn digits_value(s: Seq<char>) -> nat
    decreases s.len(),
{
    if s.len() == 0 {
        0
    } else {
        digits_value(s.drop_last()) * 10 + digit_value(s.last())
    }
}

/// The digits that an unsigned parse reads: one leading `+` is allowed.
pub open spec fn unsigned_digits(s: Seq<char>) -> Seq<char> {
    if s.len() > 0 && s[0] == '+' {
        s.drop_first()
    } else {
        s
    }
}

/// What parsing `s` as an unsigned integer type whose largest value is `max` gives:
/// an optional `+`, then at least one ASCII digit and nothing else, of value at most `max`.
pub open spec fn parse_unsigned(s: Seq<char>, max: nat) -> Option<nat> {
    let d = unsigned_digits(s);
    if d.len() > 0 && all_digits(d) && digits_value(d) <= max {
        Some(digits_value(d))
    } else {
        None
    }
}

/// The parsed value, or `default` where the parse fails (`parse().unwrap_or(default)`).
pub open spec fn parse_or(s: Seq<char>, max: nat, default: nat) -> nat {
    match parse_unsigned(s, max) {
        Some(v) => v,
        None => default,
    }
}

proof fn lemma_digits_value_monotone(s: Seq<char>, k: int)
    requires
        0 <= k <= s.len(),
        all_digits(s),
    ensures
        digits_value(s.take(k)) <= digits_value(s),
    decreases s.len() - k,
{
    if k < s.len() {
        lemma_digits_value_monotone(s, k + 1);
        assert(s.take(k + 1).drop_last() =~= s.take(k));
    } else {
        assert(s.take(k) =~= s);
    }
}

/// Parses an unsigned integer of at most `max`.
pub fn parse_unsigned_chars(s: &Vec<char>, max: u64) -> (r: Option<u64>)
    ensures
        match r {
            Some(v) => parse_unsigned(s@, max as nat) == Some(v as nat),
            None => parse_unsigned(s@, max as nat) is None,
        },
{
    let start: usize = if s.len() > 0 && s[0] == '+' {
        1
    } else {
        0
    };
    let ghost d = unsigned_digits(s@);
    assert(d =~= s@.skip(start as int));
    if start == s.len() {
        return None;
    }
    let mut v: u64 = 0;
    let mut i: usize = start;
    while i < s.len()
        invariant
            start <= i <= s.len(),
            d == unsigned_digits(s@),
            d =~= s@.skip(start as int),
            d.len() > 0,
            all_digits(d.take(i - start)),
            v as nat == digits_value(d.take(i - start)),
            v <= max,
        decreases s.len() - i,
    {
        let c = s[i];
        let u = c as u32;
        assert(d[i - start] == c);
        if u < 48 || u > 57 {
            assert(!is_digit_spec(d[i - start]));
            assert(!all_digits(d));
            assert(parse_unsigned(s@, max as nat) is None);
            return None;
        }
        let dv: u64 = (u - 48) as u64;
        let ghost k = i - start;
        assert(d.take(k + 1).drop_last() =~= d.take(k));
        assert(d.take(k + 1).last() == c);
        assert(digits_value(d.take(k + 1)) == v * 10 + dv);
        assert(all_digits(d.take(k + 1)));
        if (v as u128) * 10 + (dv as u128) > max as u128 {
            proof {
                if all_digits(d) {
                    lemma_digits_value_monotone(d, k + 1);
                }
            }
            assert(parse_unsigned(s@, max as nat) is None);
            return None;
        }
        v = v * 10 + dv;
        i = i + 1;
    }
    assert(d.take(i - start) =~= d);
    Some(v)
}

/// `s.trim().parse().unwrap_or(default)` for an unsigned type whose largest value is `max`.
pub fn parse_trimmed_or(s: &Vec<char>, max: u64, default: u64) -> (r: u64)
    requires
        default <= max,
    ensures
        r as nat == parse_or(trim(s@), max as nat, default as nat),
{
    let t = trim_chars(s);
    match parse_unsigned_chars(&t, max) {
        Some(v) => v,
        None => default,
    }
}

/// Clamps `v` into `[lo, hi]` (`Ord::clamp`).
pub open spec fn clamp(v: nat, lo: nat, hi: nat) -> nat {
    if v < lo {
        lo
    } else if v > hi {
        hi
    } else {
        v
    }
}

// ---------------------------------------------------------------------------
// Trimming
// ---------------------------------------------------------------------------

pub open spec fn trim_start(s: Seq<char>) -> Seq<char>
    decreases s.len(),
{
    if s.len() > 0 && is_whitespace_spec(s[0]) {
        trim_start(s.drop_first())
    } else {
        s
    }
}

pub open spec fn trim_end(s: Seq<char>) -> Seq<char>
    decreases s.len(),
{
    if s.len() > 0 && is_whitespace_spec(s.last()) {
        trim_end(s.drop_last())
    } else {
        s
    }
}

/// `str::trim`: leading and trailing whitespace removed.
pub open spec fn trim(s: Seq<char>) -> Seq<char> {
    trim_end(trim_start(s))
}

/// Removes leading and trailing whitespace.
pub fn trim_chars(s: &Vec<char>) -> (r: Vec<char>)
    ensures
        r@ == trim(s@),
{
    let mut lo: usize = 0;
    assert(s@.skip(0) =~= s@);
    while lo < s.len() && is_whitespace(s[lo])
        invariant
            lo <= s.len(),
            trim_start(s@) == trim_start(s@.skip(lo as int)),
        decreases s.len() - lo,
    {
        assert(s@.skip(lo as int).drop_first() =~= s@.skip(lo + 1));
        lo = lo + 1;
    }
    assert(trim_start(s@.skip(lo as int)) == s@.skip(lo as int));
    assert(s@.skip(lo as int) =~= s@.subrange(lo as int, s.len() as int));
    let mut hi: usize = s.len();
    while hi > lo && is_whitespace(s[hi - 1])
        invariant
            lo <= hi <= s.len(),
            trim(s@) == trim_end(s@.subrange(lo as int, hi as int)),
        decreases hi,
    {
        assert(s@.subrange(lo as int, hi as int).drop_last() =~= s@.subrange(lo as int, hi - 1));
        hi = hi - 1;
    }
    sub_chars(s, lo, hi)
}

// ---------------------------------------------------------------------------
// Prefixes and splitting at a character
// ---------------------------------------------------------------------------

pub open spec fn has_prefix(s: Seq<char>, p: Seq<char>) -> bool {
    p.len() <= s.len() && s.take(p.len() as int) == p
}

/// Whether `s` starts with the characters of `p`.
pub fn starts_with(s: &Vec<char>, p: &str) -> (r: bool)
    ensures
        r == has_prefix(s@, p@),
{
    let pv = chars_of(p);
    if pv.len() > s.len() {
        return false;
    }
    for i in 0..pv.len()
        invariant
            pv.len() <= s.len(),
            pv@ == p@,
            forall|j: int| 0 <= j < i ==> s@[j] == pv@[j],
    {
        if s[i] != pv[i] {
            assert(s@.take(pv.len() as int)[i as int] != p@[i as int]);
            return false;
        }
    }
    assert(s@.take(pv.len() as int) =~= p@);
    true
}

/// `split_once(c)`: the parts before and after the first `c`, if there is one.
pub open spec fn split_once(s: Seq<char>, c: char) -> Option<(Seq<char>, Seq<char>)>
    decreases s.len(),
{
    if s.len() == 0 {
        None
    } else if s[0] == c {
        Some((Seq::empty(), s.drop_first()))
    } else {
        match split_once(s.drop_first(), c) {
            Some((a, b)) => Some((seq![s[0]] + a, b)),
            None => None,
        }
    }
}

proof fn lemma_split_once_at(s: Seq<char>, c: char, i: int)
    requires
        0 <= i <= s.len(),
        forall|j: int| 0 <= j < i ==> s[j] != c,
    ensures
        i < s.len() && s[i] == c ==> split_once(s, c) == Some((s.take(i), s.skip(i + 1))),
        i == s.len() ==> split_once(s, c) is None,
    decreases i,
{
    if i > 0 {
        lemma_split_once_at(s.drop_first(), c, i - 1);
        assert(seq![s[0]] + s.drop_first().take(i - 1) =~= s.take(i));
        if i < s.len() {
            assert(s.drop_first().skip(i) =~= s.skip(i + 1));
        }
    } else if s.len() > 0 {
        assert(s.take(0) =~= Seq::<char>::empty());
        assert(s.drop_first() =~= s.skip(1));
    }
}

/// Splits `s` at the first `c`.
pub fn split_once_chars(s: &Vec<char>, c: char) -> (r: Option<(Vec<char>, Vec<char>)>)
    ensures
        match r {
            Some((a, b)) => split_once(s@, c) == Some((a@, b@)),
            None => split_once(s@, c) is None,
        },
{
    let mut i: usize = 0;
    while i < s.len() && s[i] != c
        invariant
            i <= s.len(),
            forall|j: int| 0 <= j < i ==> s@[j] != c,
        decreases s.len() - i,
    {
        i = i + 1;
    }
    proof {
        lemma_split_once_at(s@, c, i as int);
    }
    if i == s.len() {
        None
    } else {
        let a = sub_chars(s, 0, i);
        let b = sub_chars(s, i + 1, s.len());
        assert(a@ =~= s@.take(i as int));
        assert(b@ =~= s@.skip(i + 1));
        Some((a, b))
    }
}

// ---------------------------------------------------------------------------
// Escaping of stored items (one item per line)
// ---------------------------------------------------------------------------

/// How one character is written: backslash, carriage return and line feed become
/// two-character sequences; any other character stands for itself.
pub open spec fn escape_char(c: char) -> Seq<char> {
    if c == '\\' {
        seq!['\\', '\\']
    } else if c == '\r' {
        seq!['\\', 'r']
    } else if c == '\n' {
        seq!['\\', 'n']
    } else {
        seq![c]
    }
}

/// `s` with every character written by `escape_char`
/// (the effect of replacing `\` by `\\`, then CR by `\r`, then LF by `\n`).
pub open spec fn escape_spec(s: Seq<char>) -> Seq<char>
    decreases s.len(),
{
    if s.len() == 0 {
        Seq::empty()
    } else {
        escape_char(s[0]) + escape_spec(s.drop_first())
    }
}

/// The character that a backslash followed by `x` stands for.
pub open spec fn unescaped_char(x: char) -> char {
    if x == 'n' {
        '\n'
    } else if x == 'r' {
        '\r'
    } else {
        x
    }
}

/// Reads `s` left to right: a backslash and the character after it become the character
/// they stand for (`\n`, `\r`, `\\`, and any other `\x` gives `x`); a backslash at the very
/// end is dropped; every other character is kept.
pub open spec fn unescape_spec(s: Seq<char>) -> Seq<char>
    decreases s.len(),
{
    if s.len() == 0 {
        Seq::empty()
    } else if s[0] == '\\' {
        if s.len() == 1 {
            Seq::empty()
        } else {
            seq![unescaped_char(s[1])] + unescape_spec(s.skip(2))
        }
    } else {
        seq![s[0]] + unescape_spec(s.drop_first())
    }
}

/// Escapes a character vector.
pub fn escape_chars(s: &Vec<char>) -> (r: Vec<char>)
    ensures
        r@ == escape_spec(s@),
{
    let mut out: Vec<char> = Vec::new();
    assert(s@.skip(0) =~= s@);
    assert(out@ + s@ =~= s@);
    for i in 0..s.len()
        invariant
            escape_spec(s@) == out@ + escape_spec(s@.skip(i as int)),
    {
        let c = s[i];
        assert(s@.skip(i as int).drop_first() =~= s@.skip(i + 1));
        assert(s@.skip(i as int)[0] == c);
        let ghost before = out@;
        if c == '\\' {
            out.push('\\');
            out.push('\\');
        } else if c == '\r' {
            out.push('\\');
            out.push('r');
        } else if c == '\n' {
            out.push('\\');
            out.push('n');
        } else {
            out.push(c);
        }
        assert(out@ =~= before + escape_char(c));
        assert(escape_spec(s@.skip(i as int)) == escape_char(c) + escape_spec(s@.skip(i + 1)));
        assert(escape_spec(s@) =~= out@ + escape_spec(s@.skip(i + 1)));
    }
    assert(s@.skip(s.len() as int) =~= Seq::<char>::empty());
    assert(out@ + Seq::<char>::empty() =~= out@);
    out
}

/// Unescapes a character vector.
pub fn unescape_chars(s: &Vec<char>) -> (r: Vec<char>)
    ensures
        r@ == unescape_spec(s@),
{
    let mut out: Vec<char> = Vec::new();
    let mut i: usize = 0;
    assert(s@.skip(0) =~= s@);
    assert(out@ + unescape_spec(s@) =~= unescape_spec(s@));
    while i < s.len()
        invariant
            i <= s.len(),
            unescape_spec(s@) == out@ + unescape_spec(s@.skip(i as int)),
        decreases s.len() - i,
    {
        let c = s[i];
        let ghost rest = s@.skip(i as int);
        assert(rest[0] == c);
        if c == '\\' {
            if i + 1 < s.len() {
                let x = s[i + 1];
                assert(rest[1] == x);
                assert(rest.skip(2) =~= s@.skip(i + 2));
                let y = if x == 'n' {
                    '\n'
                } else if x == 'r' {
                    '\r'
                } else {
                    x
                };
                out.push(y);
                assert(unescape_spec(s@) =~= out@ + unescape_spec(s@.skip(i + 2)));
                i = i + 2;
            } else {
                assert(rest.len() == 1);
                assert(s@.skip(i + 1) =~= Seq::<char>::empty());
                assert(unescape_spec(s@) =~= out@ + unescape_spec(s@.skip(i + 1)));
                i = i + 1;
            }
        } else {
            assert(rest.drop_first() =~= s@.skip(i + 1));
            out.push(c);
            assert(unescape_spec(s@) =~= out@ + unescape_spec(s@.skip(i + 1)));
            i = i + 1;
        }
    }
    assert(s@.skip(i as int) =~= Seq::<char>::empty());
    assert(out@ + Seq::<char>::empty() =~= out@);
    out
}

/// Writes a stored item on one line: backslash, carriage return and line feed escaped.
pub fn escape(s: &str) -> (r: String)
    ensures
        r@ == escape_spec(s@),
{
    let v = chars_of(s);
    let e = escape_chars(&v);
    string_from_chars(&e)
}

/// Reads back an item written by `escape`.
pub fn unescape(s: &str) -> (r: String)
    ensures
        r@ == unescape_spec(s@),
{
    let v = chars_of(s);
    let u = unescape_chars(&v);
    string_from_chars(&u)
}

/// Unescaping gives back what was escaped.
pub proof fn lemma_unescape_escape(s: Seq<char>)
    ensures
        unescape_spec(escape_spec(s)) == s,
    decreases s.len(),
{
    if s.len() > 0 {
        lemma_unescape_escape(s.drop_first());
        let c = s[0];
        let e = escape_spec(s.drop_first());
        let whole = escape_spec(s);
        assert(whole == escape_char(c) + e);
        if c == '\\' || c == '\r' || c == '\n' {
            assert(whole.skip(2) =~= e);
            assert(whole[0] == '\\');
            assert(unescape_spec(whole) == seq![c] + unescape_spec(e));
        } else {
            assert(whole.drop_first() =~= e);
            assert(unescape_spec(whole) == seq![c] + unescape_spec(e));
        }
        assert(seq![c] + s.drop_first() =~= s);
    }
}

/// An escaped item holds no line break.
pub proof fn lemma_escape_one_line(s: Seq<char>)
    ensures
        forall|i: int|
            0 <= i < escape_spec(s).len() ==> escape_spec(s)[i] != '\n' && escape_spec(s)[i]
                != '\r',
    decreases s.len(),
{
    if s.len() > 0 {
        lemma_escape_one_line(s.drop_first());
        let e = escape_spec(s.drop_first());
        let h = escape_char(s[0]);
        assert forall|i: int| 0 <= i < escape_spec(s).len() implies escape_spec(s)[i] != '\n'
            && escape_spec(s)[i] != '\r' by {
            if i >= h.len() {
                assert(escape_spec(s)[i] == e[i - h.len()]);
            }
        }
    }
}

/// Escaping leaves a text with no backslash, carriage return or line feed unchanged.
pub proof fn lemma_escape_plain(s: Seq<char>)
    requires
        forall|i: int| 0 <= i < s.len() ==> s[i] != '\\' && s[i] != '\r' && s[i] != '\n',
    ensures
        escape_spec(s) == s,
    decreases s.len(),
{
    if s.len() > 0 {
        lemma_escape_plain(s.drop_first());
        assert(seq![s[0]] + s.drop_first() =~= s);
    }
}

// ---------------------------------------------------------------------------
// Line splitting (as `str::lines` does it)
// ---------------------------------------------------------------------------

/// A line with the carriage return of a CR LF ending removed.
pub open spec fn strip_cr(l: Seq<char>) -> Seq<char> {
    if l.len() > 0 && l.last() == '\r' {
        l.drop_last()
    } else {
        l
    }
}

/// The lines of `cur + s`, where `cur` is a started line that holds no line feed:
/// each line feed ends a line (and a carriage return just before it is dropped);
/// the text after the last line feed is a last line when it is not empty.
pub open spec fn lines_from(cur: Seq<char>, s: Seq<char>) -> Seq<Seq<char>>
    decreases s.len(),
{
    if s.len() == 0 {
        if cur.len() == 0 {
            Seq::empty()
        } else {
            seq![cur]
        }
    } else if s[0] == '\n' {
        seq![strip_cr(cur)] + lines_from(Seq::empty(), s.drop_first())
    } else {
        lines_from(cur.push(s[0]), s.drop_first())
    }
}

/// `str::lines`: the lines of `s`.
pub open spec fn lines(s: Seq<char>) -> Seq<Seq<char>> {
    lines_from(Seq::empty(), s)
}

/// The character sequences that a vector of character vectors holds.
pub open spec fn views(v: Seq<Vec<char>>) -> Seq<Seq<char>> {
    v.map_values(|x: Vec<char>| x@)
}

/// Splits `s` into its lines.
pub fn split_lines(s: &Vec<char>) -> (r: Vec<Vec<char>>)
    ensures
        views(r@) == lines(s@),
{
    let mut out: Vec<Vec<char>> = Vec::new();
    let mut cur: Vec<char> = Vec::new();
    assert(s@.skip(0) =~= s@);
    assert(views(out@) + lines(s@) =~= lines(s@));
    for i in 0..s.len()
        invariant
            lines(s@) == views(out@) + lines_from(cur@, s@.skip(i as int)),
    {
        let c = s[i];
        let ghost rest = s@.skip(i as int);
        assert(rest[0] == c);
        assert(rest.drop_first() =~= s@.skip(i + 1));
        if c == '\n' {
            let ghost prev = views(out@);
            let ghost line = strip_cr(cur@);
            if cur.len() > 0 && cur[cur.len() - 1] == '\r' {
                cur.pop();
            }
            assert(cur@ == line);
            out.push(cur);
            assert(views(out@) =~= prev.push(line));
            cur = Vec::new();
            assert(lines(s@) =~= views(out@) + lines_from(cur@, s@.skip(i + 1)));
        } else {
            cur.push(c);
        }
    }
    assert(s@.skip(s.len() as int) =~= Seq::<char>::empty());
    if cur.len() > 0 {
        let ghost prev = views(out@);
        let ghost line = cur@;
        out.push(cur);
        assert(views(out@) =~= prev.push(line));
        assert(lines(s@) =~= views(out@));
    } else {
        assert(lines(s@) =~= views(out@));
    }
    out
}

/// Lines written one after another, each followed by a line feed.
pub open spec fn join_lines(ls: Seq<Seq<char>>) -> Seq<char>
    decreases ls.len(),
{
    if ls.len() == 0 {
        Seq::empty()
    } else {
        ls[0] + seq!['\n'] + join_lines(ls.drop_first())
    }
}

/// A text that holds no line feed and no carriage return.
pub open spec fn one_line(l: Seq<char>) -> bool {
    forall|i: int| 0 <= i < l.len() ==> l[i] != '\n' && l[i] != '\r'
}

/// Writes lines, each followed by a line feed.
pub fn join_line_vec(ls: &Vec<Vec<char>>) -> (r: Vec<char>)
    ensures
        r@ == join_lines(views(ls@)),
{
    let mut out: Vec<char> = Vec::new();
    let ghost all = views(ls@);
    assert(all.skip(0) =~= all);
    assert(out@ + join_lines(all) =~= join_lines(all));
    for i in 0..ls.len()
        invariant
            all == views(ls@),
            join_lines(all) == out@ + join_lines(all.skip(i as int)),
    {
        let ghost rest = all.skip(i as int);
        assert(rest[0] == ls@[i as int]@);
        assert(rest.drop_first() =~= all.skip(i + 1));
        let ghost before = out@;
        append_chars(&mut out, &ls[i]);
        out.push('\n');
        assert(out@ =~= before + ls@[i as int]@ + seq!['\n']);
        assert(join_lines(all) =~= out@ + join_lines(all.skip(i + 1)));
    }
    assert(all.skip(ls.len() as int) =~= Seq::<Seq<char>>::empty());
    assert(out@ + Seq::<char>::empty() =~= out@);
    out
}

proof fn lemma_lines_from_plain(cur: Seq<char>, l: Seq<char>, rest: Seq<char>)
    requires
        one_line(l),
    ensures
        lines_from(cur, l + rest) == lines_from(cur + l, rest),
    decreases l.len(),
{
    if l.len() == 0 {
        assert(l + rest =~= rest);
        assert(cur + l =~= cur);
    } else {
        assert((l + rest)[0] == l[0]);
        assert((l + rest).drop_first() =~= l.drop_first() + rest);
        lemma_lines_from_plain(cur.push(l[0]), l.drop_first(), rest);
        assert(cur.push(l[0]) + l.drop_first() =~= cur + l);
    }
}

/// Splitting lines that were written by `join_lines` gives them back, when none holds a
/// line break.
pub proof fn lemma_lines_join(ls: Seq<Seq<char>>)
    requires
        forall|i: int| 0 <= i < ls.len() ==> one_line(#[trigger] ls[i]),
    ensures
        lines(join_lines(ls)) == ls,
    decreases ls.len(),
{
    if ls.len() > 0 {
        let l = ls[0];
        let rest = join_lines(ls.drop_first());
        assert(forall|i: int|
            0 <= i < ls.drop_first().len() ==> #[trigger] ls.drop_first()[i] == ls[i + 1]);
        lemma_lines_join(ls.drop_first());
        assert(l + seq!['\n'] + rest =~= l + (seq!['\n'] + rest));
        lemma_lines_from_plain(Seq::empty(), l, seq!['\n'] + rest);
        assert(Seq::<char>::empty() + l =~= l);
        assert((seq!['\n'] + rest)[0] == '\n');
        assert((seq!['\n'] + rest).drop_first() =~= rest);
        assert(one_line(l));
        if l.len() > 0 {
            assert(l.last() != '\r');
        }
        assert(strip_cr(l) == l);
        assert(seq![l] + ls.drop_first() =~= ls);
    } else {
        assert(ls =~= Seq::<Seq<char>>::empty());
    }
}

/// Parts joined by line feeds (none after the last).
pub open spec fn join_with_newlines(parts: Seq<Seq<char>>) -> Seq<char>
    decreases parts.len(),
{
    if parts.len() == 0 {
        Seq::empty()
    } else if parts.len() == 1 {
        parts[0]
    } else {
        join_with_newlines(parts.drop_last()) + seq!['\n'] + parts.last()
    }
}

/// Joins parts with line feeds between them.
pub fn join_newline_vec(parts: &Vec<Vec<char>>) -> (r: Vec<char>)
    ensures
        r@ == join_with_newlines(views(parts@)),
{
    let mut out: Vec<char> = Vec::new();
    let ghost all = views(parts@);
    for i in 0..parts.len()
        invariant
            all == views(parts@),
            out@ == join_with_newlines(all.take(i as int)),
    {
        if i > 0 {
            out.push('\n');
        }
        append_chars(&mut out, &parts[i]);
        assert(all.take(i + 1).drop_last() =~= all.take(i as int));
        assert(all.take(i + 1).last() == parts@[i as int]@);
        if i == 0 {
            assert(all.take(0) =~= Seq::<Seq<char>>::empty());
            assert(out@ =~= all.take(1)[0]);
        }
        assert(out@ =~= join_with_newlines(all.take(i + 1)));
    }
    assert(all.take(parts.len() as int) =~= all);
    out
}

/// The decimal notation of a number is a non-empty run of digits whose value is the
/// number, and it has no surrounding whitespace.
pub proof fn lemma_decimal(n: nat)
    ensures
        decimal(n).len() >= 1,
        all_digits(decimal(n)),
        digits_value(decimal(n)) == n,
        trim(decimal(n)) == decimal(n),
    decreases n,
{
    let d = decimal(n);
    assert(digit_value(digit_char(n % 10)) == n % 10);
    if n >= 10 {
        lemma_decimal(n / 10);
        assert(d.drop_last() =~= decimal(n / 10));
        assert(d.last() == digit_char(n % 10));
        assert(digits_value(d) == digits_value(decimal(n / 10)) * 10 + n % 10);
        assert((n / 10) * 10 + n % 10 == n);
        assert(forall|i: int| 0 <= i < d.len() - 1 ==> d[i] == decimal(n / 10)[i]);
    } else {
        assert(d.drop_last() =~= Seq::<char>::empty());
        assert(digits_value(d) == digits_value(d.drop_last()) * 10 + digit_value(d.last()));
    }
    assert(is_digit_spec(d.last()));
    assert(is_digit_spec(d[0]));
    assert(trim_start(d) == d);
    assert(trim_end(d) == d);
}

/// Parsing the decimal notation of a number that fits gives the number back.
pub proof fn lemma_parse_decimal(n: nat, max: nat)
    requires
        n <= max,
    ensures
        parse_unsigned(decimal(n), max) == Some(n),
        parse_unsigned(trim(decimal(n)), max) == Some(n),
        parse_or(trim(decimal(n)), max, 0) == n,
{
    lemma_decimal(n);
    assert(is_digit_spec(decimal(n)[0]));
    assert(unsigned_digits(decimal(n)) == decimal(n));
}

/// Splitting `a`, `c`, `b` at the first `c` gives `a` and `b` when `a` holds no `c`.
pub proof fn lemma_split_once_concat(a: Seq<char>, c: char, b: Seq<char>)
    requires
        forall|i: int| 0 <= i < a.len() ==> a[i] != c,
    ensures
        split_once(a + seq![c] + b, c) == Some((a, b)),
{
    let s = a + seq![c] + b;
    lemma_split_once_at(s, c, a.len() as int);
    assert(s.take(a.len() as int) =~= a);
    assert(s.skip(a.len() as int + 1) =~= b);
}

/// Escaping is one-to-one.
pub proof fn lemma_escape_injective(a: Seq<char>, b: Seq<char>)
    requires
        escape_spec(a) == escape_spec(b),
    ensures
        a == b,
{
    lemma_unescape_escape(a);
    lemma_unescape_escape(b);
}

// ---------------------------------------------------------------------------
// Display form of a list item
// ---------------------------------------------------------------------------

/// Line feeds, carriage returns and tabs are shown as spaces.
pub open spec fn flatten_char(c: char) -> char {
    if c == '\n' || c == '\r' || c == '\t' {
        ' '
    } else {
        c
    }
}

/// Longest shown part of an item, in characters.
pub const DISPLAY_MAX: usize = 80;

/// How an item is shown in the list: on one line, trimmed, and cut to 80 characters with
/// an ellipsis after the cut.
pub open spec fn display_spec(s: Seq<char>) -> Seq<char> {
    let t = trim(s.map_values(|c: char| flatten_char(c)));
    if t.len() > DISPLAY_MAX {
        t.take(DISPLAY_MAX as int).push('…')
    } else {
        t
    }
}

pub fn display_chars(s: &Vec<char>) -> (r: Vec<char>)
    ensures
        r@ == display_spec(s@),
{
    let mut flat: Vec<char> = Vec::new();
    for i in 0..s.len()
        invariant
            flat@ == s@.take(i as int).map_values(|c: char| flatten_char(c)),
    {
        let c = s[i];
        let f = if c == '\n' || c == '\r' || c == '\t' {
            ' '
        } else {
            c
        };
        flat.push(f);
        assert(s@.take(i + 1).map_values(|c: char| flatten_char(c)) =~= s@.take(
            i as int,
        ).map_values(|c: char| flatten_char(c)).push(flatten_char(c)));
    }
    assert(s@.take(s.len() as int) =~= s@);
    let t = trim_chars(&flat);
    if t.len() > DISPLAY_MAX {
        let mut r = sub_chars(&t, 0, DISPLAY_MAX);
        r.push('…');
        assert(r@ =~= t@.take(DISPLAY_MAX as int).push('…'));
        r
    } else {
        t
    }
}

/// How an item is shown in the list.
pub fn display_string(s: &str) -> (r: String)
    ensures
        r@ == display_spec(s@),
{
    let v = chars_of(s);
    let d = display_chars(&v);
    string_from_chars(&d)
}

/// No line feed, carriage return or tab.
pub open spec fn flat(s: Seq<char>) -> bool {
    forall|i: int| 0 <= i < s.len() ==> s[i] != '\n' && s[i] != '\r' && s[i] != '\t'
}

proof fn lemma_trim_start_flat(s: Seq<char>)
    requires
        flat(s),
    ensures
        flat(trim_start(s)),
    decreases s.len(),
{
    if s.len() > 0 && is_whitespace_spec(s[0]) {
        assert(flat(s.drop_first()));
        lemma_trim_start_flat(s.drop_first());
    }
}

proof fn lemma_trim_end_flat(s: Seq<char>)
    requires
        flat(s),
    ensures
        flat(trim_end(s)),
    decreases s.len(),
{
    if s.len() > 0 && is_whitespace_spec(s.last()) {
        assert(flat(s.drop_last()));
        lemma_trim_end_flat(s.drop_last());
    }
}

/// An item's display form fits on one line of at most 81 characters, holds no tab, and
/// has no whitespace at its start.
pub proof fn lemma_display_one_line(s: Seq<char>)
    ensures
        display_spec(s).len() <= DISPLAY_MAX + 1,
        flat(display_spec(s)),
{
    let m = s.map_values(|c: char| flatten_char(c));
    assert(flat(m));
    lemma_trim_start_flat(m);
    lemma_trim_end_flat(trim_start(m));
    let t = trim(m);
    if t.len() > DISPLAY_MAX {
        let d = t.take(DISPLAY_MAX as int).push('…');
        assert forall|i: int| 0 <= i < d.len() implies d[i] != '\n' && d[i] != '\r' && d[i]
            != '\t' by {
            if i < DISPLAY_MAX {
                assert(d[i] == t[i]);
            }
        }
    }
}

/// A short item that is already on one line and trimmed is shown as it is; a longer one
/// is shown as its first 80 characters and an ellipsis.
pub proof fn lemma_display_plain(s: Seq<char>)
    ensures
        flat(s) && trim(s) == s && s.len() <= DISPLAY_MAX ==> display_spec(s) == s,
        flat(s) && trim(s) == s && s.len() > DISPLAY_MAX ==> display_spec(s) == s.take(
            DISPLAY_MAX as int,
        ).push('…'),
{
    if flat(s) {
        assert(s.map_values(|c: char| flatten_char(c)) =~= s);
    }
}

} // verus!
