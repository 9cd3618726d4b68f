//! Formatting durations and fitting text into columns.
use crate::text::{
    dec, dec_chars, pad_left, push_all, push_padded, push_repeat, push_slice, str_to_chars,
    string_from_chars,
};
use unicode_width::UnicodeWidthStr;
use vstd::prelude::*;

verus! {

/// The display width of a string in terminal columns, as the unicode-width
/// crate measures it.
pub uninterp spec fn display_width(s: Seq<char>) -> usize;

/// `UnicodeWidthStr::width` of the text `s`: the result is `display_width`
/// of the characters; the crate's width tables are not restated here.
#[verifier::external_body]
pub(crate) fn text_width(s: &Vec<char>) -> (w: usize)
    ensures
        w == display_width(s@),
{
    UnicodeWidthStr::width(s.iter().collect::<String>().as_str())
}

/// `M:SS` text: the whole minutes, then the seconds in two digits.
pub open spec fn compact_duration(ms: u64) -> Seq<char> {
    let secs = ms / 1000;
    dec((secs / 60) as nat) + seq![':'] + pad_left(dec((secs % 60) as nat), 2, '0')
}

/// Like `compact_duration`, but the minutes padded with a space.
pub open spec fn wide_duration(ms: u64) -> Seq<char> {
    let secs = ms / 1000;
    pad_left(dec((secs / 60) as nat), 2, ' ') + seq![':'] + pad_left(dec((secs % 60) as nat), 2, '0')
}

/// Format a duration given in milliseconds as `M:SS` (status bar style).
pub fn format_duration_compact(ms: u64) -> (s: String)
    ensures
        s@ == compact_duration(ms),
{
    let total_secs = ms / 1000;
    let mut out: Vec<char> = Vec::new();
    let mins = dec_chars(total_secs / 60);
    let secs = dec_chars(total_secs % 60);
    push_all(&mut out, &mins);
    out.push(':');
    push_padded(&mut out, &secs, 2, '0');
    assert(out@ =~= compact_duration(ms));
    string_from_chars(&out)
}

/// Format a duration given in milliseconds as ` M:SS` (playlist style,
/// right-aligned minutes).
pub fn format_duration_wide(ms: u64) -> (s: String)
    ensures
        s@ == wide_duration(ms),
{
    let total_secs = ms / 1000;
    let mut out: Vec<char> = Vec::new();
    let mins = dec_chars(total_secs / 60);
    let secs = dec_chars(total_secs % 60);
    push_padded(&mut out, &mins, 2, ' ');
    out.push(':');
    push_padded(&mut out, &secs, 2, '0');
    assert(out@ =~= wide_duration(ms));
    string_from_chars(&out)
}

/// The display width of a single character.
pub open spec fn char_width(c: char) -> usize {
    display_width(seq![c])
}

/// How many leading characters of `s` fit in `budget` columns, taking
/// characters while their widths still fit.
pub open spec fn fitting_prefix(s: Seq<char>, budget: int) -> nat
    decreases s.len(),
{
    if s.len() == 0 || char_width(s[0]) > budget {
        0
    } else {
        1 + fitting_prefix(s.drop_first(), budget - char_width(s[0]))
    }
}

/// `s` fitted to `max_width` columns: `s` itself when it fits; else
/// `max_width` dots when that is three or less; else the longest prefix
/// that fits in `max_width - 3` columns, followed by `...`.
pub open spec fn truncated(s: Seq<char>, max_width: usize) -> Seq<char> {
    if display_width(s) <= max_width {
        s
    } else if max_width <= 3 {
        Seq::new(max_width as nat, |_i: int| '.')
    } else {
        s.take(fitting_prefix(s, max_width - 3) as int) + "..."@
    }
}

/// The sum of the widths of the characters of `s`.
pub open spec fn chars_width(s: Seq<char>) -> int
    decreases s.len(),
{
    if s.len() == 0 {
        0
    } else {
        char_width(s[0]) + chars_width(s.drop_first())
    }
}

/// Law: the characters that truncation keeps fit in the budget, by the sum
/// of their widths, and keeping one more would not fit.
pub proof fn lemma_fitting_prefix_fits(s: Seq<char>, budget: int)
    requires
        budget >= 0,
    ensures
        fitting_prefix(s, budget) <= s.len(),
        chars_width(s.take(fitting_prefix(s, budget) as int)) <= budget,
        fitting_prefix(s, budget) < s.len() ==> chars_width(
            s.take(fitting_prefix(s, budget) + 1int),
        ) > budget,
    decreases s.len(),
{
    if s.len() > 0 && char_width(s[0]) <= budget {
        let t = s.drop_first();
        let b2 = budget - char_width(s[0]);
        lemma_fitting_prefix_fits(t, b2);
        let k = fitting_prefix(t, b2);
        assert(s.take(k + 1int).drop_first() =~= t.take(k as int));
        assert(s.take(k + 1int)[0] == s[0]);
        if k < t.len() {
            assert(s.take(k + 2int).drop_first() =~= t.take(k + 1int));
            assert(s.take(k + 2int)[0] == s[0]);
        }
    } else if s.len() > 0 {
        assert(s.take(0) =~= Seq::<char>::empty());
        assert(s.take(1).drop_first() =~= Seq::<char>::empty());
        assert(s.take(1)[0] == s[0]);
        assert(chars_width(s.take(1)) == char_width(s[0]) + chars_width(Seq::<char>::empty()));
    } else {
        assert(s.take(0) =~= Seq::<char>::empty());
    }
}

proof fn lemma_fitting_prefix_step(s: Seq<char>, i: int, budget: int, used: int)
    requires
        0 <= i < s.len(),
        fitting_prefix(s.skip(i), budget - used) + i == fitting_prefix(s, budget),
    ensures
        char_width(s[i]) > budget - used ==> fitting_prefix(s, budget) == i,
        char_width(s[i]) <= budget - used ==> fitting_prefix(s.skip(i + 1), budget - used
            - char_width(s[i])) + i + 1 == fitting_prefix(s, budget),
{
    assert(s.skip(i)[0] == s[i]);
    assert(s.skip(i).drop_first() =~= s.skip(i + 1));
}

/// Truncate a string to a display width, appending `...` when it was cut.
pub fn truncate_to_width(s: &str, max_width: usize) -> (out: String)
    ensures
        out@ == truncated(s@, max_width),
{
    let chars = str_to_chars(s);
    let mut result: Vec<char> = Vec::new();
    if text_width(&chars) <= max_width {
        return string_from_chars(&chars);
    }
    if max_width <= 3 {
        push_repeat(&mut result, '.', max_width);
        assert(result@ =~= truncated(s@, max_width));
        return string_from_chars(&result);
    }
    let budget = max_width - 3;
    let mut width: usize = 0;
    let mut i: usize = 0;
    let mut stop = false;
    assert(chars@.skip(0) =~= chars@);
    while i < chars.len() && !stop
        invariant
            i <= chars.len(),
            chars@ == s@,
            width <= budget,
            budget == max_width - 3,
            !stop ==> fitting_prefix(chars@.skip(i as int), budget - width) + i == fitting_prefix(
                chars@,
                budget as int,
            ),
            stop ==> fitting_prefix(chars@, budget as int) == i,
        decreases 2 * (chars.len() - i) + if stop {
            0int
        } else {
            1int
        },
    {
        let mut one: Vec<char> = Vec::new();
        one.push(chars[i]);
        assert(one@ =~= seq![chars@[i as int]]);
        let cw = text_width(&one);
        proof {
            lemma_fitting_prefix_step(chars@, i as int, budget as int, width as int);
        }
        if cw > budget - width {
            stop = true;
        } else {
            width = width + cw;
            i = i + 1;
        }
    }
    if !stop {
        assert(chars@.skip(i as int) =~= Seq::<char>::empty());
    }
    push_slice(&mut result, &chars, 0, i);
    assert(chars@.subrange(0, i as int) =~= chars@.take(i as int));
    let dots = str_to_chars("...");
    push_all(&mut result, &dots);
    assert(result@ =~= truncated(s@, max_width));
    string_from_chars(&result)
}

/// `s` padded with spaces to `width` display columns.
pub open spec fn padded_to_width(s: Seq<char>, width: usize) -> Seq<char> {
    let w = display_width(s);
    if w >= width {
        s
    } else {
        s + Seq::new((width - w) as nat, |_i: int| ' ')
    }
}

/// Pad a string with spaces to a display width.
pub fn pad_to_width(s: &str, width: usize) -> (out: String)
    ensures
        out@ == padded_to_width(s@, width),
{
    let chars = str_to_chars(s);
    let w = text_width(&chars);
    let mut out: Vec<char> = Vec::new();
    push_all(&mut out, &chars);
    if w < width {
        push_repeat(&mut out, ' ', width - w);
    }
    assert(out@ =~= padded_to_width(s@, width));
    string_from_chars(&out)
}

} // verus!
