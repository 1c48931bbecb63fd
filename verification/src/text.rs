//! Verified ASCII text utilities: trimming, case-insensitive comparison
//! and search, digit extraction, decimal/hexadecimal parsing, and decimal
//! formatting. Firmware tables, sysfs attributes and the PCI ID registry
//! are ASCII line-oriented formats, so ASCII case and whitespace rules
//! are the ones the discovery logic needs.

use vstd::prelude::*;
use vstd::string::StrSliceExecFns;
use vstd::string::StringExecFns;

verus! {

/// ASCII whitespace, the characters trimmed from firmware strings.
pub open spec fn is_ascii_ws(c: char) -> bool {
    c == ' ' || c == '\t' || c == '\n' || c == '\r'
}

/// ASCII lowercasing of one character; other characters are unchanged.
pub open spec fn lower_char(c: char) -> char {
    if 'A' <= c && c <= 'Z' {
        ((c as u8) + 32) as char
    } else {
        c
    }
}

/// ASCII lowercasing of a character sequence.
pub open spec fn lower_seq(s: Seq<char>) -> Seq<char> {
    Seq::new(s.len(), |i: int| lower_char(s[i]))
}

/// The sequence with leading ASCII whitespace removed.
pub open spec fn trim_start_seq(s: Seq<char>) -> Seq<char>
    decreases s.len(),
{
    if s.len() > 0 && is_ascii_ws(s[0]) {
        trim_start_seq(s.drop_first())
    } else {
        s
    }
}

/// The sequence with trailing ASCII whitespace removed.
pub open spec fn trim_end_seq(s: Seq<char>) -> Seq<char>
    decreases s.len(),
{
    if s.len() > 0 && is_ascii_ws(s.last()) {
        trim_end_seq(s.drop_last())
    } else {
        s
    }
}

/// The sequence with ASCII whitespace removed from both ends.
pub open spec fn trim_seq(s: Seq<char>) -> Seq<char> {
    trim_end_seq(trim_start_seq(s))
}

proof fn lemma_trim_start_skip(s: Seq<char>, a: int)
    requires
        0 <= a <= s.len(),
        forall|j: int| 0 <= j < a ==> is_ascii_ws(#[trigger] s[j]),
        a < s.len() ==> !is_ascii_ws(s[a]),
    ensures
        trim_start_seq(s) == s.skip(a),
    decreases a,
{
    if a == 0 {
        assert(s.skip(0) =~= s);
    } else {
        let t = s.drop_first();
        assert(forall|j: int| 0 <= j < a - 1 ==> is_ascii_ws(#[trigger] t[j]));
        lemma_trim_start_skip(t, a - 1);
        assert(t.skip(a - 1) =~= s.skip(a));
    }
}

proof fn lemma_trim_end_take(s: Seq<char>, b: int)
    requires
        0 <= b <= s.len(),
        forall|j: int| b <= j < s.len() ==> is_ascii_ws(#[trigger] s[j]),
        b > 0 ==> !is_ascii_ws(s[b - 1]),
    ensures
        trim_end_seq(s) == s.take(b),
    decreases s.len() - b,
{
    if b == s.len() {
        assert(s.take(b) =~= s);
    } else {
        let t = s.drop_last();
        assert(t =~= s.take(s.len() - 1));
        assert(forall|j: int| b <= j < t.len() ==> is_ascii_ws(#[trigger] t[j]));
        lemma_trim_end_take(t, b);
        assert(t.take(b) =~= s.take(b));
    }
}

/// Trim ASCII whitespace from both ends of a string slice.
pub fn trim_str<'a>(s: &'a str) -> (r: &'a str)
    ensures
        r@ == trim_seq(s@),
{
    let n = s.unicode_len();
    let mut a: usize = 0;
    while a < n && is_ws_char(s.get_char(a))
        invariant
            0 <= a <= n,
            n == s@.len(),
            forall|j: int| 0 <= j < a ==> is_ascii_ws(#[trigger] s@[j]),
        decreases n - a,
    {
        a = a + 1;
    }
    proof {
        lemma_trim_start_skip(s@, a as int);
    }
    if a == n {
        proof {
            assert(s@.skip(a as int) =~= Seq::<char>::empty());
            assert(trim_end_seq(Seq::<char>::empty()) == Seq::<char>::empty());
        }
        let r = s.substring_char(0, 0);
        proof {
            assert(r@ =~= Seq::<char>::empty());
        }
        r
    } else {
        let mut b: usize = n;
        while b > a && is_ws_char(s.get_char(b - 1))
            invariant
                a <= b <= n,
                n == s@.len(),
                a < n,
                !is_ascii_ws(s@[a as int]),
                forall|j: int| b <= j < n ==> is_ascii_ws(#[trigger] s@[j]),
            decreases b,
        {
            b = b - 1;
        }
        let r = s.substring_char(a, b);
        proof {
            let t = s@.skip(a as int);
            assert(forall|j: int|
                b - a <= j < t.len() ==> is_ascii_ws(#[trigger] t[j]));
            assert(b > a);
            assert(!is_ascii_ws(s@[a as int]));
            if b - 1 > a {
                assert(!is_ascii_ws(t[b - a - 1]));
            } else {
                assert(t[b - a - 1] == s@[a as int]);
            }
            lemma_trim_end_take(t, b - a);
            assert(t.take(b - a) =~= s@.subrange(a as int, b as int));
        }
        r
    }
}

/// Whether `c` is ASCII whitespace.
pub fn is_ws_char(c: char) -> (b: bool)
    ensures
        b == is_ascii_ws(c),
{
    c == ' ' || c == '\t' || c == '\n' || c == '\r'
}

/// ASCII lowercasing of one character.
pub fn lower_char_exec(c: char) -> (r: char)
    ensures
        r == lower_char(c),
{
    if 'A' <= c && c <= 'Z' {
        ((c as u8) + 32) as char
    } else {
        c
    }
}

/// Whether two strings are equal after ASCII lowercasing.
pub fn eq_ignore_ascii(s: &str, t: &str) -> (b: bool)
    ensures
        b == (lower_seq(s@) == lower_seq(t@)),
{
    let n = s.unicode_len();
    let m = t.unicode_len();
    if n != m {
        proof {
            assert(lower_seq(s@).len() != lower_seq(t@).len());
        }
        return false;
    }
    let mut i: usize = 0;
    while i < n
        invariant
            0 <= i <= n,
            n == s@.len(),
            n == t@.len(),
            forall|j: int| 0 <= j < i ==> lower_char(s@[j]) == lower_char(t@[j]),
        decreases n - i,
    {
        if lower_char_exec(s.get_char(i)) != lower_char_exec(t.get_char(i)) {
            proof {
                assert(lower_seq(s@)[i as int] != lower_seq(t@)[i as int]);
            }
            return false;
        }
        i = i + 1;
    }
    proof {
        assert(lower_seq(s@) =~= lower_seq(t@));
    }
    true
}

/// Whether the characters of `pat` occur at offset `i` of `s`, compared
/// after ASCII lowercasing.
pub open spec fn matches_at_ci(s: Seq<char>, pat: Seq<char>, i: int) -> bool {
    &&& 0 <= i
    &&& i + pat.len() <= s.len()
    &&& forall|j: int| 0 <= j < pat.len() ==> lower_char(#[trigger] pat[j]) == lower_char(s[i + j])
}

/// Whether `pat` occurs anywhere in `s`, compared after ASCII lowercasing.
pub open spec fn contains_ci(s: Seq<char>, pat: Seq<char>) -> bool {
    exists|i: int| matches_at_ci(s, pat, i)
}

/// Case-insensitive (ASCII) substring search.
pub fn str_contains_ci(s: &str, pat: &str) -> (b: bool)
    ensures
        b == contains_ci(s@, pat@),
{
    let n = s.unicode_len();
    let m = pat.unicode_len();
    if m > n {
        proof {
            assert(forall|i: int| !matches_at_ci(s@, pat@, i));
        }
        return false;
    }
    let mut i: usize = 0;
    while i <= n - m
        invariant
            m <= n,
            n == s@.len(),
            m == pat@.len(),
            0 <= i <= n - m + 1,
            forall|k: int| 0 <= k < i ==> !matches_at_ci(s@, pat@, k),
        decreases n - m + 1 - i,
    {
        let mut j: usize = 0;
        let mut ok = true;
        while j < m
            invariant
                m <= n,
                n == s@.len(),
                m == pat@.len(),
                0 <= i <= n - m,
                0 <= j <= m,
                ok ==> forall|l: int|
                    0 <= l < j ==> lower_char(#[trigger] pat@[l]) == lower_char(s@[i + l]),
                !ok ==> !matches_at_ci(s@, pat@, i as int),
            decreases m - j,
        {
            if lower_char_exec(s.get_char(i + j)) != lower_char_exec(pat.get_char(j)) {
                proof {
                    assert(lower_char(pat@[j as int]) != lower_char(s@[i + j]));
                }
                ok = false;
            }
            j = j + 1;
        }
        if ok {
            proof {
                assert(matches_at_ci(s@, pat@, i as int));
            }
            return true;
        }
        i = i + 1;
    }
    proof {
        assert(forall|k: int| 0 <= k < i ==> !matches_at_ci(s@, pat@, k));
        assert(forall|k: int| matches_at_ci(s@, pat@, k) ==> 0 <= k <= n - m);
    }
    false
}

/// Whether `s` begins with the characters of `p`.
pub open spec fn spec_starts_with(s: Seq<char>, p: Seq<char>) -> bool {
    p.len() <= s.len() && s.subrange(0, p.len() as int) == p
}

/// Whether `s` begins with `p`.
pub fn str_starts_with(s: &str, p: &str) -> (b: bool)
    ensures
        b == spec_starts_with(s@, p@),
{
    let n = s.unicode_len();
    let m = p.unicode_len();
    if m > n {
        return false;
    }
    let mut i: usize = 0;
    while i < m
        invariant
            m <= n,
            n == s@.len(),
            m == p@.len(),
            0 <= i <= m,
            forall|j: int| 0 <= j < i ==> s@[j] == p@[j],
        decreases m - i,
    {
        if s.get_char(i) != p.get_char(i) {
            proof {
                assert(s@.subrange(0, p@.len() as int)[i as int] != p@[i as int]);
            }
            return false;
        }
        i = i + 1;
    }
    proof {
        assert(s@.subrange(0, p@.len() as int) =~= p@);
    }
    true
}

/// Exact string equality, stated over the views.
pub fn str_eq(s: &str, t: &str) -> (b: bool)
    ensures
        b == (s@ == t@),
{
    let n = s.unicode_len();
    let m = t.unicode_len();
    if n != m {
        return false;
    }
    let mut i: usize = 0;
    while i < n
        invariant
            0 <= i <= n,
            n == s@.len(),
            n == t@.len(),
            forall|j: int| 0 <= j < i ==> s@[j] == t@[j],
        decreases n - i,
    {
        if s.get_char(i) != t.get_char(i) {
            return false;
        }
        i = i + 1;
    }
    proof {
        assert(s@ =~= t@);
    }
    true
}

/// Whether `c` is a decimal digit.
pub open spec fn is_dec_digit(c: char) -> bool {
    '0' <= c && c <= '9'
}

/// Whether `c` is a hexadecimal digit.
pub open spec fn is_hex_digit(c: char) -> bool {
    is_dec_digit(c) || ('a' <= c && c <= 'f') || ('A' <= c && c <= 'F')
}

/// The value of a decimal digit; other characters count as zero.
pub open spec fn dec_digit_val(c: char) -> int {
    if is_dec_digit(c) {
        c as int - 48
    } else {
        0
    }
}

/// The value of a hexadecimal digit; other characters count as zero.
pub open spec fn hex_digit_val(c: char) -> int {
    if is_dec_digit(c) {
        c as int - 48
    } else if 'a' <= c && c <= 'f' {
        c as int - 87
    } else if 'A' <= c && c <= 'F' {
        c as int - 55
    } else {
        0
    }
}

/// The decimal digits of `s`, in order, with everything else dropped.
pub open spec fn digits_of(s: Seq<char>) -> Seq<char>
    decreases s.len(),
{
    if s.len() == 0 {
        Seq::empty()
    } else if is_dec_digit(s.last()) {
        digits_of(s.drop_last()).push(s.last())
    } else {
        digits_of(s.drop_last())
    }
}

/// The value of a decimal digit string.
pub open spec fn dec_val(ds: Seq<char>) -> int
    decreases ds.len(),
{
    if ds.len() == 0 {
        0
    } else {
        dec_val(ds.drop_last()) * 10 + dec_digit_val(ds.last())
    }
}

/// The value of a hexadecimal digit string.
pub open spec fn hex_val(ds: Seq<char>) -> int
    decreases ds.len(),
{
    if ds.len() == 0 {
        0
    } else {
        hex_val(ds.drop_last()) * 16 + hex_digit_val(ds.last())
    }
}

proof fn lemma_dec_val_nonneg(ds: Seq<char>)
    ensures
        dec_val(ds) >= 0,
    decreases ds.len(),
{
    if ds.len() > 0 {
        lemma_dec_val_nonneg(ds.drop_last());
    }
}

proof fn lemma_hex_val_nonneg(ds: Seq<char>)
    ensures
        hex_val(ds) >= 0,
    decreases ds.len(),
{
    if ds.len() > 0 {
        lemma_hex_val_nonneg(ds.drop_last());
    }
}

proof fn lemma_dec_val_push(p: Seq<char>, c: char)
    ensures
        dec_val(p.push(c)) == dec_val(p) * 10 + dec_digit_val(c),
{
    let q = p.push(c);
    assert(q.last() == c);
    assert(q.drop_last() =~= p);
}

proof fn lemma_hex_val_push(p: Seq<char>, c: char)
    ensures
        hex_val(p.push(c)) == hex_val(p) * 16 + hex_digit_val(c),
{
    let q = p.push(c);
    assert(q.last() == c);
    assert(q.drop_last() =~= p);
}

proof fn lemma_digits_of_push(p: Seq<char>, c: char)
    ensures
        digits_of(p.push(c)) == if is_dec_digit(c) {
            digits_of(p).push(c)
        } else {
            digits_of(p)
        },
{
    let q = p.push(c);
    assert(q.last() == c);
    assert(q.drop_last() =~= p);
}

/// Whether every character of `s` is a hexadecimal digit.
pub open spec fn all_hex_digits(s: Seq<char>) -> bool {
    forall|i: int| 0 <= i < s.len() ==> is_hex_digit(#[trigger] s[i])
}

/// Whether every character of `s` is a decimal digit.
pub open spec fn all_dec_digits(s: Seq<char>) -> bool {
    forall|i: int| 0 <= i < s.len() ==> is_dec_digit(#[trigger] s[i])
}

/// What `u16::from_str_radix(s, 16)` accepts: an optional leading `+`,
/// then at least one hexadecimal digit, with a value that fits in `u16`.
pub open spec fn spec_parse_hex_u16(s: Seq<char>) -> Option<u16> {
    let t = if s.len() > 0 && s[0] == '+' {
        s.drop_first()
    } else {
        s
    };
    if t.len() > 0 && all_hex_digits(t) && hex_val(t) <= 0xFFFF {
        Some(hex_val(t) as u16)
    } else {
        None
    }
}

/// What `u8::from_str` accepts: an optional leading `+`, then at least
/// one decimal digit, with a value that fits in `u8`.
pub open spec fn spec_parse_dec_u8(s: Seq<char>) -> Option<u8> {
    let t = if s.len() > 0 && s[0] == '+' {
        s.drop_first()
    } else {
        s
    };
    if t.len() > 0 && all_dec_digits(t) && dec_val(t) <= 255 {
        Some(dec_val(t) as u8)
    } else {
        None
    }
}

/// The number a speed field yields: the decimal digits of the raw text,
/// read as one number, and zero when there is no digit or the number
/// does not fit in `u16`.
pub open spec fn spec_speed_val(s: Seq<char>) -> int {
    let ds = digits_of(s);
    if ds.len() > 0 && dec_val(ds) <= 0xFFFF {
        dec_val(ds)
    } else {
        0
    }
}

/// The position of the first space in `s`, or -1 when there is none.
pub open spec fn first_space(s: Seq<char>) -> int
    decreases s.len(),
{
    if s.len() == 0 {
        -1
    } else if s[0] == ' ' {
        0
    } else if first_space(s.drop_first()) == -1 {
        -1
    } else {
        first_space(s.drop_first()) + 1
    }
}

/// The part of `s` before its first space; all of `s` when there is none.
pub open spec fn split_token(s: Seq<char>) -> Seq<char> {
    if first_space(s) == -1 {
        s
    } else {
        s.take(first_space(s))
    }
}

/// The part of `s` after its first space, when there is one.
pub open spec fn split_rest(s: Seq<char>) -> Option<Seq<char>> {
    if first_space(s) == -1 {
        None
    } else {
        Some(s.skip(first_space(s) + 1))
    }
}

proof fn lemma_first_space_at(s: Seq<char>, k: int)
    requires
        0 <= k < s.len(),
        s[k] == ' ',
        forall|j: int| 0 <= j < k ==> s[j] != ' ',
    ensures
        first_space(s) == k,
    decreases k,
{
    if k > 0 {
        let t = s.drop_first();
        assert(forall|j: int| 0 <= j < k - 1 ==> t[j] != ' ');
        lemma_first_space_at(t, k - 1);
    }
}

proof fn lemma_first_space_absent(s: Seq<char>)
    requires
        forall|j: int| 0 <= j < s.len() ==> s[j] != ' ',
    ensures
        first_space(s) == -1,
    decreases s.len(),
{
    if s.len() > 0 {
        lemma_first_space_absent(s.drop_first());
    }
}

/// Split `s` at its first space: the token before it, and what follows
/// it when there is one.
pub fn split_first_space<'a>(s: &'a str) -> (r: (&'a str, Option<&'a str>))
    ensures
        r.0@ == split_token(s@),
        match r.1 {
            None => split_rest(s@) is None,
            Some(x) => split_rest(s@) == Some(x@),
        },
{
    let n = s.unicode_len();
    let mut k: usize = 0;
    while k < n && s.get_char(k) != ' '
        invariant
            0 <= k <= n,
            n == s@.len(),
            forall|j: int| 0 <= j < k ==> s@[j] != ' ',
        decreases n - k,
    {
        k = k + 1;
    }
    if k == n {
        proof {
            lemma_first_space_absent(s@);
        }
        (s, None)
    } else {
        proof {
            lemma_first_space_at(s@, k as int);
        }
        let tok = s.substring_char(0, k);
        let rest = s.substring_char(k + 1, n);
        proof {
            assert(tok@ =~= s@.take(k as int));
            assert(rest@ =~= s@.skip(k + 1));
        }
        (tok, Some(rest))
    }
}

/// The view of an optional string.
pub open spec fn opt_str_view(o: Option<String>) -> Option<Seq<char>> {
    match o {
        Some(s) => Some(s@),
        None => None,
    }
}

/// Whether `c` is a decimal digit.
pub fn is_dec_digit_char(c: char) -> (b: bool)
    ensures
        b == is_dec_digit(c),
{
    '0' <= c && c <= '9'
}

/// Whether `c` is a hexadecimal digit.
pub fn is_hex_digit_char(c: char) -> (b: bool)
    ensures
        b == is_hex_digit(c),
{
    ('0' <= c && c <= '9') || ('a' <= c && c <= 'f') || ('A' <= c && c <= 'F')
}

/// The value of a hexadecimal digit character.
pub fn hex_digit_val_char(c: char) -> (v: u32)
    requires
        is_hex_digit(c),
    ensures
        v == hex_digit_val(c),
{
    if '0' <= c && c <= '9' {
        (c as u32) - 48
    } else if 'a' <= c && c <= 'f' {
        (c as u32) - 87
    } else {
        (c as u32) - 55
    }
}

/// Parse a `u16` from hexadecimal text, as `u16::from_str_radix` with
/// radix 16 does.
pub fn parse_hex_u16(s: &str) -> (r: Option<u16>)
    ensures
        r == spec_parse_hex_u16(s@),
{
    let n = s.unicode_len();
    let off: usize = if n > 0 && s.get_char(0) == '+' {
        1
    } else {
        0
    };
    let ghost t = if s@.len() > 0 && s@[0] == '+' {
        s@.drop_first()
    } else {
        s@
    };
    proof {
        assert(t =~= s@.subrange(off as int, n as int));
    }
    if n == off {
        return None;
    }
    let mut i: usize = off;
    let mut acc: u32 = 0;
    let mut over = false;
    while i < n
        invariant
            off <= i <= n,
            n == s@.len(),
            t == s@.subrange(off as int, n as int),
            t == (if s@.len() > 0 && s@[0] == '+' { s@.drop_first() } else { s@ }),
            all_hex_digits(t.take(i - off)),
            !over ==> acc == hex_val(t.take(i - off)) && acc <= 0xFFFF,
            over ==> hex_val(t.take(i - off)) > 0xFFFF,
        decreases n - i,
    {
        let c = s.get_char(i);
        proof {
            assert(t[i - off] == s@[i as int]);
        }
        if !is_hex_digit_char(c) {
            proof {
                assert(!is_hex_digit(t[i - off]));
            }
            return None;
        }
        let d = hex_digit_val_char(c);
        proof {
            let p = t.take(i - off);
            assert(p.push(c) =~= t.take(i + 1 - off));
            lemma_hex_val_push(p, c);
            lemma_hex_val_nonneg(p);
        }
        if over {
        } else {
            let next = acc * 16 + d;
            if next > 0xFFFF {
                over = true;
            } else {
                acc = next;
            }
        }
        i = i + 1;
    }
    proof {
        assert(t.take(n - off) =~= t);
    }
    if over {
        None
    } else {
        Some(acc as u16)
    }
}

/// Parse a `u8` from decimal text, as `u8::from_str` does.
pub fn parse_dec_u8(s: &str) -> (r: Option<u8>)
    ensures
        r == spec_parse_dec_u8(s@),
{
    let n = s.unicode_len();
    let off: usize = if n > 0 && s.get_char(0) == '+' {
        1
    } else {
        0
    };
    let ghost t = if s@.len() > 0 && s@[0] == '+' {
        s@.drop_first()
    } else {
        s@
    };
    proof {
        assert(t =~= s@.subrange(off as int, n as int));
    }
    if n == off {
        return None;
    }
    let mut i: usize = off;
    let mut acc: u32 = 0;
    let mut over = false;
    while i < n
        invariant
            off <= i <= n,
            n == s@.len(),
            t == s@.subrange(off as int, n as int),
            t == (if s@.len() > 0 && s@[0] == '+' { s@.drop_first() } else { s@ }),
            all_dec_digits(t.take(i - off)),
            !over ==> acc == dec_val(t.take(i - off)) && acc <= 255,
            over ==> dec_val(t.take(i - off)) > 255,
        decreases n - i,
    {
        let c = s.get_char(i);
        proof {
            assert(t[i - off] == s@[i as int]);
        }
        if !('0' <= c && c <= '9') {
            proof {
                assert(!is_dec_digit(t[i - off]));
            }
            return None;
        }
        let d = (c as u32) - 48;
        proof {
            let p = t.take(i - off);
            assert(p.push(c) =~= t.take(i + 1 - off));
            lemma_dec_val_push(p, c);
            lemma_dec_val_nonneg(p);
        }
        if over {
        } else {
            let next = acc * 10 + d;
            if next > 255 {
                over = true;
            } else {
                acc = next;
            }
        }
        i = i + 1;
    }
    proof {
        assert(t.take(n - off) =~= t);
    }
    if over {
        None
    } else {
        Some(acc as u8)
    }
}

/// Extract the decimal digits of `s` and read them as one number:
/// no digit at all, or a value that does not fit in `u16`, yields zero.
pub fn extract_speed(s: &str) -> (r: u16)
    ensures
        r as int == spec_speed_val(s@),
{
    let n = s.unicode_len();
    let mut i: usize = 0;
    let mut acc: u32 = 0;
    let mut over = false;
    let mut seen = false;
    while i < n
        invariant
            0 <= i <= n,
            n == s@.len(),
            seen == (digits_of(s@.take(i as int)).len() > 0),
            !over ==> acc == dec_val(digits_of(s@.take(i as int))) && acc <= 0xFFFF,
            over ==> dec_val(digits_of(s@.take(i as int))) > 0xFFFF,
        decreases n - i,
    {
        let c = s.get_char(i);
        proof {
            let p = s@.take(i as int);
            assert(p.push(s@[i as int]) =~= s@.take(i + 1));
            lemma_digits_of_push(p, s@[i as int]);
            lemma_dec_val_nonneg(digits_of(p));
        }
        if '0' <= c && c <= '9' {
            seen = true;
            let d = (c as u32) - 48;
            proof {
                let ds = digits_of(s@.take(i as int));
                lemma_dec_val_push(ds, c);
                lemma_dec_val_nonneg(ds);
            }
            if over {
            } else {
                let next = acc * 10 + d;
                if next > 0xFFFF {
                    over = true;
                } else {
                    acc = next;
                }
            }
        }
        i = i + 1;
    }
    proof {
        assert(s@.take(n as int) =~= s@);
    }
    if over || !seen {
        0
    } else {
        acc as u16
    }
}

/// The decimal digit character for `d`.
pub open spec fn digit_char(d: int) -> char {
    if d == 0 {
        '0'
    } else if d == 1 {
        '1'
    } else if d == 2 {
        '2'
    } else if d == 3 {
        '3'
    } else if d == 4 {
        '4'
    } else if d == 5 {
        '5'
    } else if d == 6 {
        '6'
    } else if d == 7 {
        '7'
    } else if d == 8 {
        '8'
    } else {
        '9'
    }
}

/// The decimal rendering of a nonnegative number.
pub open spec fn dec_str(n: int) -> Seq<char>
    decreases n,
{
    if n < 10 {
        seq![digit_char(n)]
    } else {
        dec_str(n / 10).push(digit_char(n % 10))
    }
}

fn dec_digit_str(d: u64) -> (r: &'static str)
    requires
        d < 10,
    ensures
        r@ == seq![digit_char(d as int)],
{
    proof {
        reveal_strlit("0");
        reveal_strlit("1");
        reveal_strlit("2");
        reveal_strlit("3");
        reveal_strlit("4");
        reveal_strlit("5");
        reveal_strlit("6");
        reveal_strlit("7");
        reveal_strlit("8");
        reveal_strlit("9");
    }
    let r = if d == 0 {
        "0"
    } else if d == 1 {
        "1"
    } else if d == 2 {
        "2"
    } else if d == 3 {
        "3"
    } else if d == 4 {
        "4"
    } else if d == 5 {
        "5"
    } else if d == 6 {
        "6"
    } else if d == 7 {
        "7"
    } else if d == 8 {
        "8"
    } else {
        "9"
    };
    proof {
        assert(r@ =~= seq![digit_char(d as int)]);
    }
    r
}

/// Render `n` in decimal.
pub fn u64_to_dec(n: u64) -> (r: String)
    ensures
        r@ == dec_str(n as int),
    decreases n,
{
    if n < 10 {
        String::from_str(dec_digit_str(n))
    } else {
        proof {
            assert(n / 10 < n) by (nonlinear_arith)
                requires
                    n >= 10,
            ;
        }
        let mut r = u64_to_dec(n / 10);
        r.append(dec_digit_str(n % 10));
        proof {
            assert(dec_str((n / 10) as int).push(digit_char((n % 10) as int)) =~= dec_str(
                (n / 10) as int,
            ) + seq![digit_char((n % 10) as int)]);
        }
        r
    }
}

} // verus!
