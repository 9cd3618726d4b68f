//! Hex theme colours.
use crate::text::{is_ws, lead_ws, trail_ws, trim, trim_range, trim_start, str_to_chars};
use vstd::prelude::*;

verus! {

/// The value of a hex digit (`char::is_ascii_hexdigit` holds exactly when there is one).
pub open spec fn hex_value(c: char) -> Option<u8> {
    if '0' <= c && c <= '9' {
        Some((c as int - '0' as int) as u8)
    } else if 'a' <= c && c <= 'f' {
        Some((c as int - 'a' as int + 10) as u8)
    } else if 'A' <= c && c <= 'F' {
        Some((c as int - 'A' as int + 10) as u8)
    } else {
        None
    }
}

/// The byte that the two hex digits `a b` spell, if they are hex digits.
pub open spec fn hex_pair(a: char, b: char) -> Option<u8> {
    match (hex_value(a), hex_value(b)) {
        (Some(x), Some(y)) => Some((x * 16 + y) as u8),
        _ => None,
    }
}

/// The colour that six hex digits `RRGGBB` spell, if they do.
pub open spec fn hex6(h: Seq<char>) -> Option<(u8, u8, u8)> {
    if h.len() != 6 {
        None
    } else {
        match (hex_pair(h[0], h[1]), hex_pair(h[2], h[3]), hex_pair(h[4], h[5])) {
            (Some(r), Some(g), Some(b)) => Some((r, g, b)),
            _ => None,
        }
    }
}

/// Number of leading `#`.
pub open spec fn lead_hashes(s: Seq<char>) -> nat
    decreases s.len(),
{
    if s.len() > 0 && s[0] == '#' {
        1 + lead_hashes(s.drop_first())
    } else {
        0
    }
}

/// The hex text of a colour setting: trimmed, without leading `#`.
pub open spec fn color_text(raw: Seq<char>) -> Seq<char> {
    let t = trim(raw);
    t.skip(lead_hashes(t) as int)
}

/// The colour of a hex setting such as `56B6C2` or `#56B6C2`.
pub open spec fn parse_hex_color_spec(raw: Seq<char>) -> Option<(u8, u8, u8)> {
    hex6(color_text(raw))
}

pub fn hex_digit(c: char) -> (v: Option<u8>)
    ensures
        v == hex_value(c),
{
    if '0' <= c && c <= '9' {
        Some((c as u32 - '0' as u32) as u8)
    } else if 'a' <= c && c <= 'f' {
        Some((c as u32 - 'a' as u32 + 10) as u8)
    } else if 'A' <= c && c <= 'F' {
        Some((c as u32 - 'A' as u32 + 10) as u8)
    } else {
        None
    }
}

fn hex_pair_exec(a: char, b: char) -> (v: Option<u8>)
    ensures
        v == hex_pair(a, b),
{
    match (hex_digit(a), hex_digit(b)) {
        (Some(x), Some(y)) => Some(x * 16 + y),
        _ => None,
    }
}

/// The colour spelled by `s[lo..hi]` as six hex digits.
pub fn hex6_range(s: &Vec<char>, lo: usize, hi: usize) -> (c: Option<(u8, u8, u8)>)
    requires
        lo <= hi <= s.len(),
    ensures
        c == hex6(s@.subrange(lo as int, hi as int)),
{
    let ghost h = s@.subrange(lo as int, hi as int);
    if hi - lo != 6 {
        return None;
    }
    assert(h[0] == s@[lo as int] && h[1] == s@[lo + 1] && h[2] == s@[lo + 2]);
    assert(h[3] == s@[lo + 3] && h[4] == s@[lo + 4] && h[5] == s@[lo + 5]);
    match (
        hex_pair_exec(s[lo], s[lo + 1]),
        hex_pair_exec(s[lo + 2], s[lo + 3]),
        hex_pair_exec(s[lo + 4], s[lo + 5]),
    ) {
        (Some(r), Some(g), Some(b)) => Some((r, g, b)),
        _ => None,
    }
}

/// Where the colour text of `s` starts and ends.
pub fn color_text_range(s: &Vec<char>) -> (r: (usize, usize))
    ensures
        r.0 <= r.1 <= s.len(),
        s@.subrange(r.0 as int, r.1 as int) == color_text(s@),
{
    let (a, b) = trim_range(s, 0, s.len());
    assert(s@.subrange(0, s@.len() as int) =~= s@);
    let ghost t = s@.subrange(a as int, b as int);
    let mut i = a;
    assert(t.skip(0) =~= t);
    while i < b && s[i] == '#'
        invariant
            a <= i <= b <= s.len(),
            t == s@.subrange(a as int, b as int),
            lead_hashes(t) == (i - a) + lead_hashes(t.skip(i - a)),
        decreases b - i,
    {
        assert(t.skip(i - a)[0] == s@[i as int]);
        assert(t.skip(i - a).drop_first() =~= t.skip(i - a + 1));
        i = i + 1;
    }
    proof {
        if i < b {
            assert(t.skip(i - a)[0] == s@[i as int]);
        }
        assert(t.skip(i - a) =~= s@.subrange(i as int, b as int));
    }
    (i, b)
}

/// Parse a hex colour such as `56B6C2` or `#56B6C2` into red, green, blue.
pub fn parse_hex_color(hex: &str) -> (c: Option<(u8, u8, u8)>)
    ensures
        c == parse_hex_color_spec(hex@),
{
    let s = str_to_chars(hex);
    let (a, b) = color_text_range(&s);
    hex6_range(&s, a, b)
}

/// The hex text of an accepted colour is already in its plain form: no
/// surrounding whitespace and no leading `#`.
proof fn lemma_color_text_of_hex6(h: Seq<char>)
    requires
        hex6(h) is Some,
    ensures
        color_text(h) == h,
{
    assert(hex_pair(h[0], h[1]) is Some);
    assert(hex_pair(h[4], h[5]) is Some);
    assert(!is_ws(h[0]));
    assert(!is_ws(h[5]));
    assert(lead_ws(h) == 0);
    assert(trim_start(h) =~= h);
    assert(h.last() == h[5]);
    assert(trail_ws(h) == 0);
    assert(trim(h) =~= h);
    assert(lead_hashes(h) == 0);
    assert(h.skip(0) =~= h);
}

/// Law: a colour that the theme input accepts reads back as that colour:
/// the hex text it saves is read by `parse_hex_color` as the colour that
/// the input spelled.
pub proof fn lemma_accepted_color_reads_back(input: Seq<char>)
    requires
        hex6(color_text(input)) is Some,
    ensures
        parse_hex_color_spec(color_text(input)) == parse_hex_color_spec(input),
{
    lemma_color_text_of_hex6(color_text(input));
}

} // verus!
