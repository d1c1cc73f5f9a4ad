//! Text building blocks: decimal rendering, zero padding, ASCII case
//! handling and byte-count formatting, all specified down to the character.

use vstd::prelude::*;

verus! {

/// The character for one decimal digit.
pub open spec fn digit_char(d: int) -> char {
    if d == 0 {
        '0'
    } else if d == 1 {
        '1'
    } else if d == 2 {
        '2'
    } else if d == 3 {
        '3'
    } else if d == 4 {
        '4'
    } else if d == 5 {
        '5'
    } else if d == 6 {
        '6'
    } else if d == 7 {
        '7'
    } else if d == 8 {
        '8'
    } else {
        '9'
    }
}

/// Decimal rendering of `v`, most significant digit first, no padding.
pub open spec fn spec_digits(v: int) -> Seq<char>
    decreases v,
{
    if v < 10 {
        seq![digit_char(v)]
    } else {
        spec_digits(v / 10).push(digit_char(v % 10))
    }
}

/// `v % 100`, forced to exactly two digits.
pub open spec fn spec_two_digits(v: int) -> Seq<char> {
    seq![digit_char((v % 100) / 10), digit_char(v % 10)]
}

/// `v` zero-padded to four digits when it fits in them.
pub open spec fn spec_four_digits(v: int) -> Seq<char> {
    if v < 10000 {
        seq![
            digit_char(v / 1000),
            digit_char((v / 100) % 10),
            digit_char((v / 10) % 10),
            digit_char(v % 10),
        ]
    } else {
        spec_digits(v)
    }
}

/// Relies on `String::push`: appends exactly the one character.
#[verifier::external_body]
pub(crate) fn push_char(s: &mut String, c: char)
    ensures
        final(s)@ == old(s)@.push(c),
{
    s.push(c);
}

fn digit_to_char(d: u64) -> (c: char)
    requires
        d < 10,
    ensures
        c == digit_char(d as int),
{
    match d {
        0 => '0',
        1 => '1',
        2 => '2',
        3 => '3',
        4 => '4',
        5 => '5',
        6 => '6',
        7 => '7',
        8 => '8',
        _ => '9',
    }
}

/// Append the decimal rendering of `v`.
pub fn push_u64(s: &mut String, v: u64)
    ensures
        final(s)@ == old(s)@ + spec_digits(v as int),
    decreases v,
{
    if v < 10 {
        push_char(s, digit_to_char(v));
        proof {
            assert(final(s)@ =~= old(s)@ + spec_digits(v as int));
        }
    } else {
        push_u64(s, v / 10);
        push_char(s, digit_to_char(v % 10));
        proof {
            assert(final(s)@ =~= old(s)@ + spec_digits(v as int));
        }
    }
}

/// The decimal rendering of `v` as a fresh string.
pub fn fmt_u64(v: u64) -> (r: String)
    ensures
        r@ == spec_digits(v as int),
{
    let mut s = String::new();
    push_u64(&mut s, v);
    proof {
        assert(s@ =~= spec_digits(v as int));
    }
    s
}

/// Append `v % 100` as exactly two digits.
pub fn push_2digits(s: &mut String, v: u64)
    ensures
        final(s)@ == old(s)@ + spec_two_digits(v as int),
{
    push_char(s, digit_to_char((v % 100) / 10));
    push_char(s, digit_to_char(v % 10));
    proof {
        assert(final(s)@ =~= old(s)@ + spec_two_digits(v as int));
    }
}

/// Append `v` zero-padded to four digits (wider values print in full).
pub fn push_4digits(s: &mut String, v: u64)
    ensures
        final(s)@ == old(s)@ + spec_four_digits(v as int),
{
    if v < 10000 {
        push_char(s, digit_to_char(v / 1000));
        push_char(s, digit_to_char((v / 100) % 10));
        push_char(s, digit_to_char((v / 10) % 10));
        push_char(s, digit_to_char(v % 10));
        proof {
            assert(final(s)@ =~= old(s)@ + spec_four_digits(v as int));
        }
    } else {
        push_u64(s, v);
    }
}

/// The lower-case form of an ASCII letter; other characters unchanged.
pub open spec fn lower_char(c: char) -> char {
    if 'A' <= c && c <= 'Z' {
        (((c as u8) + 32) as u8) as char
    } else {
        c
    }
}

/// The character sequence lower-cased.
pub open spec fn to_lower(s: Seq<char>) -> Seq<char> {
    s.map_values(|c: char| lower_char(c))
}

/// Case folding agrees character by character.
pub open spec fn eq_case_fold(a: Seq<char>, b: Seq<char>) -> bool {
    a.len() == b.len() && forall|k: int|
        0 <= k < a.len() ==> lower_char(#[trigger] a[k]) == lower_char(b[k])
}

pub fn to_lower_char(c: char) -> (r: char)
    ensures
        r == lower_char(c),
{
    if c >= 'A' && c <= 'Z' {
        (((c as u8) + 32) as u8) as char
    } else {
        c
    }
}

/// ASCII-case-insensitive string comparison.
pub fn eq_ignore_ascii_case(a: &str, b: &str) -> (r: bool)
    ensures
        r == eq_case_fold(a@, b@),
{
    let n = a.unicode_len();
    if n != b.unicode_len() {
        return false;
    }
    let mut i: usize = 0;
    while i < n
        invariant
            i <= n,
            n == a@.len(),
            n == b@.len(),
            forall|k: int| 0 <= k < i ==> lower_char(#[trigger] a@[k]) == lower_char(b@[k]),
        decreases n - i,
    {
        if to_lower_char(a.get_char(i)) != to_lower_char(b.get_char(i)) {
            return false;
        }
        i = i + 1;
    }
    true
}

/// Plain string equality.
pub fn str_eq(a: &str, b: &str) -> (r: bool)
    ensures
        r == (a@ == b@),
{
    let n = a.unicode_len();
    if n != b.unicode_len() {
        return false;
    }
    let mut i: usize = 0;
    while i < n
        invariant
            i <= n,
            n == a@.len(),
            n == b@.len(),
            forall|k: int| 0 <= k < i ==> #[trigger] a@[k] == b@[k],
        decreases n - i,
    {
        if a.get_char(i) != b.get_char(i) {
            return false;
        }
        i = i + 1;
    }
    proof {
        assert(a@ =~= b@);
    }
    true
}

/// The string lower-cased character by character.
pub fn to_lower_string(s: &str) -> (r: String)
    ensures
        r@ == to_lower(s@),
{
    let n = s.unicode_len();
    let mut out = String::new();
    let mut i: usize = 0;
    while i < n
        invariant
            i <= n,
            n == s@.len(),
            out@ == to_lower(s@.take(i as int)),
        decreases n - i,
    {
        push_char(&mut out, to_lower_char(s.get_char(i)));
        proof {
            assert(out@ =~= to_lower(s@.take(i as int + 1)));
        }
        i = i + 1;
    }
    proof {
        assert(s@.take(n as int) =~= s@);
    }
    out
}

/// The whitespace the shell's own trimming recognises.
pub open spec fn is_ws(c: char) -> bool {
    c == ' ' || c == '\t' || c == '\n' || c == '\r'
}

pub fn is_ws_char(c: char) -> (r: bool)
    ensures
        r == is_ws(c),
{
    c == ' ' || c == '\t' || c == '\n' || c == '\r'
}

/// The string with every ASCII whitespace character removed.
pub open spec fn spec_strip_ws(s: Seq<char>) -> Seq<char> {
    s.filter(|c: char| !is_ws(c))
}

pub fn strip_ascii_whitespace(s: &str) -> (r: String)
    ensures
        r@ == spec_strip_ws(s@),
{
    let n = s.unicode_len();
    let mut out = String::new();
    let mut i: usize = 0;
    while i < n
        invariant
            i <= n,
            n == s@.len(),
            out@ == spec_strip_ws(s@.take(i as int)),
        decreases n - i,
    {
        let c = s.get_char(i);
        proof {
            reveal(Seq::filter);
            assert(s@.take(i as int + 1).drop_last() =~= s@.take(i as int));
            assert(s@.take(i as int + 1).last() == s@[i as int]);
        }
        if !is_ws_char(c) {
            push_char(&mut out, c);
        }
        i = i + 1;
    }
    proof {
        assert(s@.take(n as int) =~= s@);
    }
    out
}

/// Human-readable byte count: whole mebibytes, else whole kibibytes, else
/// bytes, each with its unit.
pub open spec fn spec_format_bytes(b: int) -> Seq<char> {
    if b >= 1048576 {
        spec_digits(b / 1048576) + " MB"@
    } else if b >= 1024 {
        spec_digits(b / 1024) + " KB"@
    } else {
        spec_digits(b) + " B"@
    }
}

pub fn format_bytes(bytes: u64) -> (r: String)
    ensures
        r@ == spec_format_bytes(bytes as int),
{
    let mut s = String::new();
    if bytes >= 1024 * 1024 {
        push_u64(&mut s, bytes / 1024 / 1024);
        s.append(" MB");
    } else if bytes >= 1024 {
        push_u64(&mut s, bytes / 1024);
        s.append(" KB");
    } else {
        push_u64(&mut s, bytes);
        s.append(" B");
    }
    proof {
        assert(s@ =~= spec_format_bytes(bytes as int));
    }
    s
}

/// The string with leading and trailing ASCII whitespace removed.
pub open spec fn spec_trim(s: Seq<char>) -> Seq<char>
    decreases s.len(),
{
    if s.len() == 0 {
        s
    } else if is_ws(s[0]) {
        spec_trim(s.drop_first())
    } else if is_ws(s.last()) {
        spec_trim(s.drop_last())
    } else {
        s
    }
}

pub fn trim_str(s: &str) -> (r: String)
    ensures
        r@ == spec_trim(s@),
{
    let n = s.unicode_len();
    proof {
        assert(s@.skip(0) =~= s@);
    }
    let mut lo: usize = 0;
    while lo < n && is_ws_char(s.get_char(lo))
        invariant
            lo <= n,
            n == s@.len(),
            forall|k: int| 0 <= k < lo ==> is_ws(#[trigger] s@[k]),
            spec_trim(s@) == spec_trim(s@.skip(lo as int)),
        decreases n - lo,
    {
        proof {
            assert(s@.skip(lo as int).drop_first() =~= s@.skip(lo as int + 1));
            assert(s@.skip(lo as int)[0] == s@[lo as int]);
        }
        lo = lo + 1;
    }
    proof {
        assert(s@.skip(lo as int).take((n - lo) as int) =~= s@.skip(lo as int));
    }
    let mut hi: usize = n;
    while hi > lo && is_ws_char(s.get_char(hi - 1))
        invariant
            lo <= hi <= n,
            n == s@.len(),
            lo < n ==> !is_ws(s@[lo as int]),
            lo == hi ==> lo == n || !is_ws(s@[lo as int]),
            spec_trim(s@) == spec_trim(s@.skip(lo as int).take((hi - lo) as int)),
        decreases hi,
    {
        proof {
            let cur = s@.skip(lo as int).take((hi - lo) as int);
            assert(cur.len() > 0);
            assert(cur[0] == s@[lo as int]);
            assert(cur.last() == s@[hi as int - 1]);
            assert(cur.drop_last() =~= s@.skip(lo as int).take((hi - lo) as int - 1));
        }
        hi = hi - 1;
    }
    let mut out = String::new();
    let mut i: usize = lo;
    while i < hi
        invariant
            lo <= i <= hi <= n,
            n == s@.len(),
            out@ == s@.skip(lo as int).take((i - lo) as int),
        decreases hi - i,
    {
        push_char(&mut out, s.get_char(i));
        proof {
            assert(out@ =~= s@.skip(lo as int).take((i + 1 - lo) as int));
        }
        i = i + 1;
    }
    proof {
        let cur = s@.skip(lo as int).take((hi - lo) as int);
        if cur.len() > 0 {
            assert(spec_trim(cur) == cur);
        } else {
            assert(spec_trim(cur) == cur);
        }
        assert(out@ =~= cur);
    }
    out
}

} // verus!
