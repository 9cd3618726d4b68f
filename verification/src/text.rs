//! Character-sequence utilities shared by the lyrics parser, the playlist
//! filter and the display formatting: whitespace trimming, searching,
//! decimal parsing and printing, and the conversions between `str`/`String`
//! and `Vec<char>`.
use vstd::prelude::*;

verus! {

// ---------------------------------------------------------------------------
// Whitespace and trimming
// ---------------------------------------------------------------------------

/// The Unicode `White_Space` property, which is what `char::is_whitespace` tests.
pub open spec fn is_ws(c: char) -> bool {
    ||| c == ' '
    ||| ('\t' <= c && c <= '\r')
    ||| c == '\u{85}'
    ||| c == '\u{a0}'
    ||| c == '\u{1680}'
    ||| ('\u{2000}' <= c && c <= '\u{200a}')
    ||| c == '\u{2028}'
    ||| c == '\u{2029}'
    ||| c == '\u{202f}'
    ||| c == '\u{205f}'
    ||| c == '\u{3000}'
}

pub fn char_is_ws(c: char) -> (b: bool)
    ensures
        b == is_ws(c),
{
    c == ' ' || ('\t' <= c && c <= '\r') || c == '\u{85}' || c == '\u{a0}' || c == '\u{1680}'
        || ('\u{2000}' <= c && c <= '\u{200a}') || c == '\u{2028}' || c == '\u{2029}'
        || c == '\u{202f}' || c == '\u{205f}' || c == '\u{3000}'
}

/// Number of leading whitespace characters.
pub open spec fn lead_ws(s: Seq<char>) -> nat
    decreases s.len(),
{
    if s.len() > 0 && is_ws(s[0]) {
        1 + lead_ws(s.drop_first())
    } else {
        0
    }
}

/// Number of trailing whitespace characters.
pub open spec fn trail_ws(s: Seq<char>) -> nat
    decreases s.len(),
{
    if s.len() > 0 && is_ws(s.last()) {
        1 + trail_ws(s.drop_last())
    } else {
        0
    }
}

/// `s` without leading whitespace (`str::trim_start`).
pub open spec fn trim_start(s: Seq<char>) -> Seq<char> {
    s.skip(lead_ws(s) as int)
}

/// `s` without leading and trailing whitespace (`str::trim`).
pub open spec fn trim(s: Seq<char>) -> Seq<char> {
    let t = trim_start(s);
    t.take(t.len() - trail_ws(t))
}

pub proof fn lemma_lead_ws_bound(s: Seq<char>)
    ensures
        lead_ws(s) <= s.len(),
        lead_ws(s) < s.len() ==> !is_ws(s[lead_ws(s) as int]),
        forall|j: int| 0 <= j < lead_ws(s) ==> is_ws(#[trigger] s[j]),
    decreases s.len(),
{
    if s.len() > 0 && is_ws(s[0]) {
        lemma_lead_ws_bound(s.drop_first());
        assert forall|j: int| 0 <= j < lead_ws(s) implies is_ws(#[trigger] s[j]) by {
            if j > 0 {
                assert(s[j] == s.drop_first()[j - 1]);
            }
        }
    }
}

pub proof fn lemma_trail_ws_bound(s: Seq<char>)
    ensures
        trail_ws(s) <= s.len(),
    decreases s.len(),
{
    if s.len() > 0 && is_ws(s.last()) {
        lemma_trail_ws_bound(s.drop_last());
    }
}

/// `lead_ws` is determined by the first non-whitespace position.
pub proof fn lemma_lead_ws_at(s: Seq<char>, i: int)
    requires
        0 <= i <= s.len(),
        forall|j: int| 0 <= j < i ==> is_ws(#[trigger] s[j]),
        i == s.len() || !is_ws(s[i]),
    ensures
        lead_ws(s) == i,
    decreases i,
{
    if i > 0 {
        let t = s.drop_first();
        assert forall|j: int| 0 <= j < i - 1 implies is_ws(#[trigger] t[j]) by {
            assert(t[j] == s[j + 1]);
        }
        if i < s.len() {
            assert(t[i - 1] == s[i]);
        }
        lemma_lead_ws_at(t, i - 1);
    }
}

/// `trail_ws` is determined by the last non-whitespace position.
pub proof fn lemma_trail_ws_at(s: Seq<char>, i: int)
    requires
        0 <= i <= s.len(),
        forall|j: int| i <= j < s.len() ==> is_ws(#[trigger] s[j]),
        i == 0 || !is_ws(s[i - 1]),
    ensures
        trail_ws(s) == s.len() - i,
    decreases s.len() - i,
{
    if i < s.len() {
        let t = s.drop_last();
        assert forall|j: int| i <= j < t.len() implies is_ws(#[trigger] t[j]) by {
            assert(t[j] == s[j]);
        }
        if i > 0 {
            assert(t[i - 1] == s[i - 1]);
        }
        lemma_trail_ws_at(t, i);
    }
}

/// The bounds `[a, b)` of `trim(s[lo..hi])` inside `s`.
pub fn trim_range(s: &Vec<char>, lo: usize, hi: usize) -> (r: (usize, usize))
    requires
        lo <= hi <= s.len(),
    ensures
        lo <= r.0 <= r.1 <= hi,
        s@.subrange(r.0 as int, r.1 as int) == trim(s@.subrange(lo as int, hi as int)),
{
    let ghost w = s@.subrange(lo as int, hi as int);
    let mut a = lo;
    while a < hi && char_is_ws(s[a])
        invariant
            lo <= a <= hi <= s.len(),
            w == s@.subrange(lo as int, hi as int),
            forall|j: int| lo <= j < a ==> is_ws(#[trigger] s@[j]),
        decreases hi - a,
    {
        a = a + 1;
    }
    proof {
        assert forall|j: int| 0 <= j < a - lo implies is_ws(#[trigger] w[j]) by {
            assert(w[j] == s@[lo + j]);
        }
        if a < hi {
            assert(w[a - lo] == s@[a as int]);
        }
        lemma_lead_ws_at(w, a - lo);
    }
    let ghost t = trim_start(w);
    assert(t =~= s@.subrange(a as int, hi as int));
    let mut b = hi;
    while b > a && char_is_ws(s[b - 1])
        invariant
            lo <= a <= b <= hi <= s.len(),
            forall|j: int| b <= j < hi ==> is_ws(#[trigger] s@[j]),
        decreases b,
    {
        b = b - 1;
    }
    proof {
        assert forall|j: int| b - a <= j < t.len() implies is_ws(#[trigger] t[j]) by {
            assert(t[j] == s@[a + j]);
        }
        if b > a {
            assert(t[b - a - 1] == s@[b - 1]);
        }
        lemma_trail_ws_at(t, b - a);
        assert(s@.subrange(a as int, b as int) =~= t.take(t.len() - trail_ws(t)));
    }
    (a, b)
}

// ---------------------------------------------------------------------------
// Searching
// ---------------------------------------------------------------------------

/// Position of the first `c` in `s`, or `s.len()` when `s` holds no `c`.
pub open spec fn index_of(s: Seq<char>, c: char) -> int
    decreases s.len(),
{
    if s.len() == 0 {
        0
    } else if s[0] == c {
        0
    } else {
        1 + index_of(s.drop_first(), c)
    }
}

pub proof fn lemma_index_of_at(s: Seq<char>, c: char, i: int)
    requires
        0 <= i <= s.len(),
        forall|j: int| 0 <= j < i ==> #[trigger] s[j] != c,
        i == s.len() || s[i] == c,
    ensures
        index_of(s, c) == i,
    decreases i,
{
    if i > 0 {
        let t = s.drop_first();
        assert forall|j: int| 0 <= j < i - 1 implies #[trigger] t[j] != c by {
            assert(t[j] == s[j + 1]);
        }
        if i < s.len() {
            assert(t[i - 1] == s[i]);
        }
        lemma_index_of_at(t, c, i - 1);
    }
}

pub proof fn lemma_index_of_bound(s: Seq<char>, c: char)
    ensures
        0 <= index_of(s, c) <= s.len(),
        index_of(s, c) < s.len() ==> s[index_of(s, c)] == c,
        forall|j: int| 0 <= j < index_of(s, c) ==> #[trigger] s[j] != c,
    decreases s.len(),
{
    if s.len() > 0 && s[0] != c {
        let t = s.drop_first();
        lemma_index_of_bound(t, c);
        assert forall|j: int| 0 <= j < index_of(s, c) implies #[trigger] s[j] != c by {
            if j > 0 {
                assert(s[j] == t[j - 1]);
            }
        }
    }
}

/// Whether `c` occurs in `s`.
pub open spec fn has_char(s: Seq<char>, c: char) -> bool {
    exists|j: int| 0 <= j < s.len() && s[j] == c
}

/// Position of the first `c` in `s[lo..hi]`, counted from the start of `s`;
/// `hi` when there is none.
pub fn find_char(s: &Vec<char>, lo: usize, hi: usize, c: char) -> (r: usize)
    requires
        lo <= hi <= s.len(),
    ensures
        lo <= r <= hi,
        r - lo == index_of(s@.subrange(lo as int, hi as int), c),
        r < hi ==> s@[r as int] == c,
        forall|j: int| lo <= j < r ==> #[trigger] s@[j] != c,
{
    let mut i = lo;
    while i < hi && s[i] != c
        invariant
            lo <= i <= hi <= s.len(),
            forall|j: int| lo <= j < i ==> #[trigger] s@[j] != c,
        decreases hi - i,
    {
        i = i + 1;
    }
    proof {
        let w = s@.subrange(lo as int, hi as int);
        assert forall|j: int| 0 <= j < i - lo implies #[trigger] w[j] != c by {
            assert(w[j] == s@[lo + j]);
        }
        if i < hi {
            assert(w[i - lo] == s@[i as int]);
        }
        lemma_index_of_at(w, c, i - lo);
    }
    i
}

/// Whether `c` occurs in `s[lo..hi]`.
pub fn contains_char(s: &Vec<char>, lo: usize, hi: usize, c: char) -> (b: bool)
    requires
        lo <= hi <= s.len(),
    ensures
        b == has_char(s@.subrange(lo as int, hi as int), c),
{
    let r = find_char(s, lo, hi, c);
    proof {
        let w = s@.subrange(lo as int, hi as int);
        if r < hi {
            assert(w[r - lo] == c);
        } else {
            assert forall|j: int| 0 <= j < w.len() implies w[j] != c by {
                assert(w[j] == s@[lo + j]);
            }
        }
    }
    r < hi
}

/// Whether `pat` occurs in `s` at position `i`.
pub open spec fn occurs_at(s: Seq<char>, pat: Seq<char>, i: int) -> bool {
    0 <= i && i + pat.len() <= s.len() && s.subrange(i, i + pat.len()) == pat
}

/// Whether `pat` is a substring of `s` (`str::contains` with a string pattern).
pub open spec fn has_substring(s: Seq<char>, pat: Seq<char>) -> bool {
    exists|i: int| occurs_at(s, pat, i)
}

fn matches_at(s: &Vec<char>, pat: &Vec<char>, i: usize) -> (b: bool)
    requires
        i + pat.len() <= s.len(),
    ensures
        b == occurs_at(s@, pat@, i as int),
{
    let mut k: usize = 0;
    while k < pat.len()
        invariant
            k <= pat.len(),
            i + pat.len() <= s.len(),
            forall|j: int| 0 <= j < k ==> s@[i + j] == pat@[j],
        decreases pat.len() - k,
    {
        if s[i + k] != pat[k] {
            proof {
                assert(s@.subrange(i as int, i + pat.len())[k as int] != pat@[k as int]);
            }
            return false;
        }
        k = k + 1;
    }
    assert(s@.subrange(i as int, i + pat.len()) =~= pat@);
    true
}

/// Whether `pat` occurs in `s`.
pub fn contains_seq(s: &Vec<char>, pat: &Vec<char>) -> (b: bool)
    ensures
        b == has_substring(s@, pat@),
{
    if pat.len() > s.len() {
        assert forall|j: int| !occurs_at(s@, pat@, j) by {}
        return false;
    }
    let last = s.len() - pat.len();
    let mut i: usize = 0;
    while i < last
        invariant
            i <= last,
            last + pat.len() == s.len(),
            forall|j: int| 0 <= j < i ==> !occurs_at(s@, pat@, j),
        decreases last - i,
    {
        if matches_at(s, pat, i) {
            return true;
        }
        i = i + 1;
    }
    if matches_at(s, pat, last) {
        return true;
    }
    assert forall|j: int| !occurs_at(s@, pat@, j) by {
        if j > i {
            assert(j + pat@.len() > s@.len());
        }
    }
    false
}

// ---------------------------------------------------------------------------
// Splitting
// ---------------------------------------------------------------------------

/// The pieces of `s` between separators (as `str::split` with a char
/// predicate): always at least one piece; `k` separators give `k + 1` pieces.
pub open spec fn split_by(s: Seq<char>, sep: spec_fn(char) -> bool) -> Seq<Seq<char>>
    decreases s.len(),
{
    if s.len() == 0 {
        seq![Seq::<char>::empty()]
    } else {
        let p = split_by(s.drop_last(), sep);
        if sep(s.last()) {
            p.push(Seq::<char>::empty())
        } else {
            p.drop_last().push(p.last().push(s.last()))
        }
    }
}

pub proof fn lemma_split_by_nonempty(s: Seq<char>, sep: spec_fn(char) -> bool)
    ensures
        split_by(s, sep).len() >= 1,
    decreases s.len(),
{
    if s.len() > 0 {
        lemma_split_by_nonempty(s.drop_last(), sep);
    }
}

// ---------------------------------------------------------------------------
// Decimal numbers
// ---------------------------------------------------------------------------

pub open spec fn is_digit(c: char) -> bool {
    '0' <= c && c <= '9'
}

pub open spec fn digit_value(c: char) -> nat {
    (c as nat - '0' as nat) as nat
}

/// The number that the decimal digits `s` spell.
pub open spec fn digits_value(s: Seq<char>) -> nat
    decreases s.len(),
{
    if s.len() == 0 {
        0
    } else {
        digits_value(s.drop_last()) * 10 + digit_value(s.last())
    }
}

pub open spec fn all_digits(s: Seq<char>) -> bool {
    forall|i: int| 0 <= i < s.len() ==> is_digit(#[trigger] s[i])
}

/// What `str::parse::<u64>` gives: an optional `+`, then one or more ASCII
/// digits whose value fits in a `u64`.
pub open spec fn parse_u64_spec(s: Seq<char>) -> Option<u64> {
    let d = if s.len() > 0 && s[0] == '+' {
        s.drop_first()
    } else {
        s
    };
    if d.len() == 0 || !all_digits(d) || digits_value(d) > u64::MAX {
        None
    } else {
        Some(digits_value(d) as u64)
    }
}

pub proof fn lemma_digits_value_prefix(s: Seq<char>, i: int)
    requires
        0 <= i <= s.len(),
    ensures
        digits_value(s.take(i)) <= digits_value(s),
    decreases s.len() - i,
{
    if i < s.len() {
        assert(s.drop_last().take(i) == s.take(i));
        lemma_digits_value_prefix(s.drop_last(), i);
        assert(s.take(s.len() as int) == s);
    } else {
        assert(s.take(i) == s);
    }
}

/// `str::parse::<u64>` on `s[lo..hi]`.
pub fn parse_u64_range(s: &Vec<char>, lo: usize, hi: usize) -> (r: Option<u64>)
    requires
        lo <= hi <= s.len(),
    ensures
        r == parse_u64_spec(s@.subrange(lo as int, hi as int)),
{
    let ghost w = s@.subrange(lo as int, hi as int);
    let mut start = lo;
    if lo < hi && s[lo] == '+' {
        start = lo + 1;
    }
    let ghost d = s@.subrange(start as int, hi as int);
    assert(d == (if w.len() > 0 && w[0] == '+' {
        w.drop_first()
    } else {
        w
    }));
    if start == hi {
        return None;
    }
    let mut val: u64 = 0;
    let mut i = start;
    while i < hi
        invariant
            start <= i <= hi <= s.len(),
            d == s@.subrange(start as int, hi as int),
            w == s@.subrange(lo as int, hi as int),
            d.len() > 0,
            d == (if w.len() > 0 && w[0] == '+' {
                w.drop_first()
            } else {
                w
            }),
            all_digits(d.take(i - start)),
            val == digits_value(d.take(i - start)),
        decreases hi - i,
    {
        let c = s[i];
        if !('0' <= c && c <= '9') {
            assert(d[i - start] == c);
            assert(!is_digit(d[i - start]));
            assert(!all_digits(d));
            return None;
        }
        let dv = (c as u32 - '0' as u32) as u64;
        proof {
            let k = i - start;
            assert(d.take(k + 1).drop_last() =~= d.take(k));
            assert(d.take(k + 1).last() == c);
            assert(digits_value(d.take(k + 1)) == digits_value(d.take(k)) * 10 + digit_value(c));
            assert forall|j: int| 0 <= j < k + 1 implies is_digit(#[trigger] d.take(k + 1)[j]) by {
                if j < k {
                    assert(d.take(k + 1)[j] == d.take(k)[j]);
                }
            }
        }
        if val > (u64::MAX - dv) / 10 {
            proof {
                let k = i - start;
                assert(digits_value(d.take(k + 1)) > u64::MAX) by (nonlinear_arith)
                    requires
                        val > (u64::MAX - dv) / 10,
                        digits_value(d.take(k + 1)) == val * 10 + dv,
                        dv <= 9,
                ;
                lemma_digits_value_prefix(d, k + 1);
                assert(digits_value(d) > u64::MAX);
            }
            return None;
        }
        assert(val * 10 + dv <= u64::MAX) by (nonlinear_arith)
            requires
                val <= (u64::MAX - dv) / 10,
                dv <= 9,
        ;
        val = val * 10 + dv;
        i = i + 1;
    }
    assert(d.take(hi - start) =~= d);
    Some(val)
}

// ---------------------------------------------------------------------------
// Printing numbers
// ---------------------------------------------------------------------------

/// The ASCII digit for `d < 10`.
pub open spec fn digit_char(d: nat) -> char {
    (48 + d) as char
}

/// The decimal digits of `n`, without leading zeros (`0` is `"0"`).
pub open spec fn dec(n: nat) -> Seq<char>
    decreases n,
{
    if n < 10 {
        seq![digit_char(n)]
    } else {
        dec(n / 10).push(digit_char(n % 10))
    }
}

/// `s` right-aligned in `width` characters, padded with `fill` on the left.
pub open spec fn pad_left(s: Seq<char>, width: nat, fill: char) -> Seq<char> {
    if s.len() < width {
        Seq::new((width - s.len()) as nat, |_i: int| fill) + s
    } else {
        s
    }
}

fn digit(d: u64) -> (c: char)
    requires
        d < 10,
    ensures
        c == digit_char(d as nat),
{
    match d {
        0 => '0',
        1 => '1',
        2 => '2',
        3 => '3',
        4 => '4',
        5 => '5',
        6 => '6',
        7 => '7',
        8 => '8',
        _ => '9',
    }
}

/// The decimal digits of `n`.
pub fn dec_chars(n: u64) -> (out: Vec<char>)
    ensures
        out@ == dec(n as nat),
    decreases n,
{
    if n < 10 {
        let mut v: Vec<char> = Vec::new();
        v.push(digit(n));
        assert(v@ =~= dec(n as nat));
        v
    } else {
        let mut v = dec_chars(n / 10);
        v.push(digit(n % 10));
        v
    }
}

/// Append `s[lo..hi]` to `out`.
pub fn push_slice(out: &mut Vec<char>, s: &Vec<char>, lo: usize, hi: usize)
    requires
        lo <= hi <= s.len(),
    ensures
        final(out)@ == old(out)@ + s@.subrange(lo as int, hi as int),
{
    let mut i = lo;
    while i < hi
        invariant
            lo <= i <= hi <= s.len(),
            out@ == old(out)@ + s@.subrange(lo as int, i as int),
        decreases hi - i,
    {
        out.push(s[i]);
        i = i + 1;
        assert(out@ =~= old(out)@ + s@.subrange(lo as int, i as int));
    }
}

/// Append all of `s` to `out`.
pub fn push_all(out: &mut Vec<char>, s: &Vec<char>)
    ensures
        final(out)@ == old(out)@ + s@,
{
    push_slice(out, s, 0, s.len());
    assert(s@.subrange(0, s@.len() as int) =~= s@);
}

/// Append the characters of `s` to `out`.
pub fn push_str(out: &mut Vec<char>, s: &str)
    ensures
        final(out)@ == old(out)@ + s@,
{
    let v = str_to_chars(s);
    push_all(out, &v);
}

/// Append `n` copies of `c` to `out`.
pub fn push_repeat(out: &mut Vec<char>, c: char, n: usize)
    ensures
        final(out)@ == old(out)@ + Seq::new(n as nat, |_i: int| c),
{
    let mut k: usize = 0;
    while k < n
        invariant
            k <= n,
            out@ == old(out)@ + Seq::new(k as nat, |_i: int| c),
        decreases n - k,
    {
        out.push(c);
        k = k + 1;
        assert(out@ =~= old(out)@ + Seq::new(k as nat, |_i: int| c));
    }
}

/// Append `s` right-aligned in `width` characters, padded with `fill`.
pub fn push_padded(out: &mut Vec<char>, s: &Vec<char>, width: usize, fill: char)
    ensures
        final(out)@ == old(out)@ + pad_left(s@, width as nat, fill),
{
    if s.len() < width {
        push_repeat(out, fill, width - s.len());
    }
    push_all(out, s);
    assert(out@ =~= old(out)@ + pad_left(s@, width as nat, fill));
}

// ---------------------------------------------------------------------------
// Conversions
// ---------------------------------------------------------------------------

/// The characters of `s`.
pub fn str_to_chars(s: &str) -> (out: Vec<char>)
    ensures
        out@ == s@,
{
    let mut out: Vec<char> = Vec::new();
    for c in it: s.chars()
        invariant
            out@ == it.seq().take(it.index() as int),
            it.seq() == s@,
    {
        out.push(c);
    }
    out
}

/// `s[lo..hi]` as a `String`; the std `FromIterator` collection of chars.
#[verifier::external_body]
pub(crate) fn string_from_range(s: &Vec<char>, lo: usize, hi: usize) -> (out: String)
    requires
        lo <= hi <= s.len(),
    ensures
        out@ == s@.subrange(lo as int, hi as int),
{
    s[lo..hi].iter().collect::<String>()
}

/// The characters of a whole `Vec<char>` as a `String`.
pub fn string_from_chars(s: &Vec<char>) -> (out: String)
    ensures
        out@ == s@,
{
    let out = string_from_range(s, 0, s.len());
    assert(s@.subrange(0, s@.len() as int) =~= s@);
    out
}

// ---------------------------------------------------------------------------
// Case and order
// ---------------------------------------------------------------------------

/// The lowercase form of a string, as `str::to_lowercase` maps it (Unicode
/// lowercase mapping, including its context-dependent final sigma).
pub uninterp spec fn lowercase(s: Seq<char>) -> Seq<char>;

/// `str::to_lowercase`; the result is `lowercase` of the text, whose Unicode
/// tables are not restated here.
#[verifier::external_body]
pub(crate) fn to_lowercase(s: &str) -> (out: String)
    ensures
        out@ == lowercase(s@),
{
    s.to_lowercase()
}

/// Lexicographic order of two texts by code point (the order of `String`'s
/// `Ord`, which compares UTF-8 bytes, and so code points): -1, 0 or 1.
pub open spec fn text_order(a: Seq<char>, b: Seq<char>) -> int
    decreases a.len(),
{
    if a.len() == 0 {
        if b.len() == 0 {
            0
        } else {
            -1
        }
    } else if b.len() == 0 {
        1
    } else if a[0] < b[0] {
        -1
    } else if a[0] > b[0] {
        1
    } else {
        text_order(a.drop_first(), b.drop_first())
    }
}

pub proof fn lemma_text_order_antisym(a: Seq<char>, b: Seq<char>)
    ensures
        text_order(a, b) == -text_order(b, a),
        text_order(a, b) == 0 ==> a == b,
        -1 <= text_order(a, b) <= 1,
    decreases a.len(),
{
    if a.len() > 0 && b.len() > 0 && a[0] == b[0] {
        lemma_text_order_antisym(a.drop_first(), b.drop_first());
        if text_order(a, b) == 0 {
            assert(a =~= seq![a[0]] + a.drop_first());
            assert(b =~= seq![b[0]] + b.drop_first());
        }
    } else if a.len() == 0 && b.len() == 0 {
        assert(a =~= b);
    }
}

pub proof fn lemma_text_order_trans(a: Seq<char>, b: Seq<char>, c: Seq<char>)
    ensures
        text_order(a, b) <= 0 && text_order(b, c) <= 0 ==> text_order(a, c) <= 0,
        text_order(a, b) < 0 && text_order(b, c) <= 0 ==> text_order(a, c) < 0,
        text_order(a, b) <= 0 && text_order(b, c) < 0 ==> text_order(a, c) < 0,
    decreases a.len(),
{
    lemma_text_order_antisym(a, b);
    lemma_text_order_antisym(b, c);
    lemma_text_order_antisym(a, c);
    if a.len() > 0 && b.len() > 0 && c.len() > 0 {
        lemma_text_order_trans(a.drop_first(), b.drop_first(), c.drop_first());
    }
}

proof fn lemma_text_order_skip(a: Seq<char>, b: Seq<char>, i: int)
    requires
        0 <= i < a.len(),
        i < b.len(),
        a[i] == b[i],
    ensures
        text_order(a.skip(i), b.skip(i)) == text_order(a.skip(i + 1), b.skip(i + 1)),
{
    assert(a.skip(i).drop_first() =~= a.skip(i + 1));
    assert(b.skip(i).drop_first() =~= b.skip(i + 1));
}

/// The order of two texts: -1 when `a` sorts first, 0 when equal, 1 when `b` does.
pub fn compare_text(a: &Vec<char>, b: &Vec<char>) -> (r: i8)
    ensures
        r == text_order(a@, b@),
{
    let mut i: usize = 0;
    assert(a@.skip(0) =~= a@);
    assert(b@.skip(0) =~= b@);
    while i < a.len() && i < b.len() && a[i] == b[i]
        invariant
            i <= a.len(),
            i <= b.len(),
            text_order(a@.skip(i as int), b@.skip(i as int)) == text_order(a@, b@),
        decreases a.len() - i,
    {
        proof {
            lemma_text_order_skip(a@, b@, i as int);
        }
        i = i + 1;
    }
    proof {
        if i < a.len() {
            assert(a@.skip(i as int)[0] == a@[i as int]);
        }
        if i < b.len() {
            assert(b@.skip(i as int)[0] == b@[i as int]);
        }
    }
    if i == a.len() {
        if i == b.len() {
            0
        } else {
            -1
        }
    } else if i == b.len() {
        1
    } else if a[i] < b[i] {
        -1
    } else {
        1
    }
}

/// Whether two strings hold the same characters.
pub fn str_eq(a: &str, b: &str) -> (r: bool)
    ensures
        r == (a@ == b@),
{
    let x = str_to_chars(a);
    let y = str_to_chars(b);
    if x.len() != y.len() {
        assert(x@.len() != y@.len());
        return false;
    }
    let mut i: usize = 0;
    while i < x.len()
        invariant
            i <= x.len() == y.len(),
            x@ == a@,
            y@ == b@,
            forall|j: int| 0 <= j < i ==> x@[j] == y@[j],
        decreases x.len() - i,
    {
        if x[i] != y[i] {
            assert(x@[i as int] != y@[i as int]);
            return false;
        }
        i = i + 1;
    }
    assert(x@ =~= y@);
    true
}

} // verus!
