//! LRC lyrics parsing, standard and Enhanced.
//!
//! Standard:  `[mm:ss.xx]lyrics text`
//! Enhanced:  `[mm:ss.xx]<mm:ss.xx>word1<mm:ss.xx>word2...`
//!
//! Times are milliseconds from the start of the song.
use crate::text::{
    all_digits, has_char, index_of, is_digit, lemma_index_of_bound, lemma_split_by_nonempty,
    parse_u64_range, parse_u64_spec, split_by, trim, digits_value, find_char, string_from_chars,
    trim_range, contains_char, string_from_range, str_to_chars,
};
use std::collections::BTreeMap;
use vstd::prelude::*;

verus! {

/// A single word or syllable with its start time (Enhanced LRC).
#[derive(Debug)]
pub struct LyricsWord {
    /// Start time in milliseconds.
    pub start: u64,
    pub text: String,
}

/// A lyrics line, either timed word by word (Enhanced LRC) or plain.
#[derive(Debug)]
pub enum LyricsLine {
    /// Enhanced LRC: each word has its own timestamp.
    Timed { time: u64, words: Vec<LyricsWord> },
    /// Standard LRC: the whole line shares one timestamp; several texts at the
    /// same time (a line and its translation) are kept in order.
    Plain { time: u64, text: Vec<String> },
}

/// The mathematical value of a lyrics line.
pub enum LineView {
    Timed { time: u64, words: Seq<(u64, Seq<char>)> },
    Plain { time: u64, text: Seq<Seq<char>> },
}

impl View for LyricsWord {
    type V = (u64, Seq<char>);

    open spec fn view(&self) -> (u64, Seq<char>) {
        (self.start, self.text@)
    }
}

pub open spec fn words_view(words: Seq<LyricsWord>) -> Seq<(u64, Seq<char>)> {
    words.map_values(|w: LyricsWord| w@)
}

pub open spec fn texts_view(texts: Seq<String>) -> Seq<Seq<char>> {
    texts.map_values(|t: String| t@)
}

impl View for LyricsLine {
    type V = LineView;

    open spec fn view(&self) -> LineView {
        match self {
            LyricsLine::Timed { time, words } => LineView::Timed {
                time: *time,
                words: words_view(words@),
            },
            LyricsLine::Plain { time, text } => LineView::Plain {
                time: *time,
                text: texts_view(text@),
            },
        }
    }
}

impl LineView {
    pub open spec fn time(self) -> u64 {
        match self {
            LineView::Timed { time, .. } => time,
            LineView::Plain { time, .. } => time,
        }
    }
}

impl LyricsLine {
    /// The time at which the line starts.
    pub fn time(&self) -> (t: u64)
        ensures
            t == self@.time(),
    {
        match self {
            LyricsLine::Timed { time, .. } => *time,
            LyricsLine::Plain { time, .. } => *time,
        }
    }

    /// Whether the line carries word-level timestamps.
    pub fn is_timed(&self) -> (b: bool)
        ensures
            b == (self@ is Timed),
    {
        match self {
            LyricsLine::Timed { .. } => true,
            LyricsLine::Plain { .. } => false,
        }
    }
}

/// The view of a whole lyrics map.
pub open spec fn lyrics_view(m: Map<u64, LyricsLine>) -> Map<u64, LineView> {
    m.map_values(|l: LyricsLine| l@)
}

// ---------------------------------------------------------------------------
// Timestamps
// ---------------------------------------------------------------------------

pub open spec fn ts_sep() -> spec_fn(char) -> bool {
    |c: char| c == ':' || c == '.'
}

pub open spec fn unwrap_or_zero(o: Option<u64>) -> int {
    match o {
        Some(v) => v as int,
        None => 0,
    }
}

/// The hundredths of a second that the third part of a timestamp gives:
/// its first two characters, or a single character counted in tenths;
/// zero when they are not a number.
pub open spec fn centis_spec(c: Seq<char>) -> int {
    if c.len() >= 2 {
        unwrap_or_zero(parse_u64_spec(c.take(2)))
    } else {
        unwrap_or_zero(parse_u64_spec(c)) * 10
    }
}

/// A timestamp `mm:ss`, `mm:ss.xx` or `mm:ss:xx` in milliseconds; `None` for
/// anything else (a metadata tag such as `ti:Title`), and for a time that
/// does not fit in a `u64` of milliseconds.
pub open spec fn timestamp_spec(tag: Seq<char>) -> Option<u64> {
    let parts = split_by(tag, ts_sep());
    if parts.len() < 2 || parts.len() > 3 {
        None
    } else {
        match (parse_u64_spec(parts[0]), parse_u64_spec(parts[1])) {
            (Some(m), Some(s)) => {
                let cs: int = if parts.len() == 3 {
                    centis_spec(parts[2])
                } else {
                    0
                };
                let total = m * 60000 + s * 1000 + cs * 10;
                if total <= u64::MAX {
                    Some(total as u64)
                } else {
                    None
                }
            },
            _ => None,
        }
    }
}

/// Law: a timestamp tag fails exactly when it does not split (at `:` and
/// `.`) into two or three parts, when its minutes or its seconds are not a
/// decimal number, or when the time does not fit in `u64` milliseconds. A
/// third part that is not a number counts as 0 hundredths.
pub proof fn lemma_timestamp_fails(tag: Seq<char>)
    ensures
        ({
            let parts = split_by(tag, ts_sep());
            timestamp_spec(tag) is None <==> {
                ||| parts.len() < 2
                ||| parts.len() > 3
                ||| parse_u64_spec(parts[0]) is None
                ||| parse_u64_spec(parts[1]) is None
                ||| parse_u64_spec(parts[0])->0 * 60000 + parse_u64_spec(parts[1])->0 * 1000
                    + (if parts.len() == 3 {
                    centis_spec(parts[2])
                } else {
                    0
                }) * 10 > u64::MAX
            }
        }),
        ({
            let parts = split_by(tag, ts_sep());
            parts.len() == 3 && (if parts[2].len() >= 2 {
                parse_u64_spec(parts[2].take(2))
            } else {
                parse_u64_spec(parts[2])
            }) is None ==> centis_spec(parts[2]) == 0
        }),
{
}

proof fn lemma_split_appended(x: Seq<char>, y: Seq<char>)
    requires
        forall|i: int| 0 <= i < y.len() ==> !(ts_sep())(#[trigger] y[i]),
    ensures
        split_by(x + y, ts_sep()) == split_by(x, ts_sep()).drop_last().push(
            split_by(x, ts_sep()).last() + y,
        ),
    decreases y.len(),
{
    lemma_split_by_nonempty(x, ts_sep());
    if y.len() == 0 {
        assert(x + y =~= x);
        assert(split_by(x, ts_sep()).last() + y =~= split_by(x, ts_sep()).last());
        assert(split_by(x, ts_sep()).drop_last().push(split_by(x, ts_sep()).last())
            =~= split_by(x, ts_sep()));
    } else {
        let y0 = y.drop_last();
        lemma_split_appended(x, y0);
        assert((x + y).drop_last() =~= x + y0);
        assert((x + y).last() == y.last());
        assert(split_by(x, ts_sep()).last() + y =~= (split_by(x, ts_sep()).last() + y0).push(
            y.last(),
        ));
        let p = split_by(x + y0, ts_sep());
        assert(p.drop_last().push(p.last().push(y.last())) =~= split_by(x, ts_sep()).drop_last().push(
            split_by(x, ts_sep()).last() + y,
        ));
    }
}

proof fn lemma_split_digits(d: Seq<char>)
    requires
        all_digits(d),
    ensures
        forall|i: int| 0 <= i < d.len() ==> !(ts_sep())(#[trigger] d[i]),
        d.len() > 0 ==> parse_u64_spec(d) == if digits_value(d) <= u64::MAX {
            Some(digits_value(d) as u64)
        } else {
            None
        },
{
    assert forall|i: int| 0 <= i < d.len() implies !(ts_sep())(#[trigger] d[i]) by {
        assert(is_digit(d[i]));
    }
    if d.len() > 0 {
        assert(is_digit(d[0]));
    }
}

/// Law: a tag of decimal minutes, `:`, decimal seconds and, optionally,
/// `.` and two decimal digits of hundredths gives the time that they spell,
/// in milliseconds, whenever it fits in a `u64`.
pub proof fn lemma_timestamp_value(m: Seq<char>, sec: Seq<char>, cs: Seq<char>)
    requires
        m.len() > 0 && all_digits(m),
        sec.len() > 0 && all_digits(sec),
        all_digits(cs),
        cs.len() == 0 || cs.len() == 2,
        digits_value(m) * 60000 + digits_value(sec) * 1000 + digits_value(cs) * 10 <= u64::MAX,
    ensures
        cs.len() == 0 ==> timestamp_spec(m + seq![':'] + sec) == Some(
            (digits_value(m) * 60000 + digits_value(sec) * 1000) as u64,
        ),
        cs.len() == 2 ==> timestamp_spec(m + seq![':'] + sec + seq!['.'] + cs) == Some(
            (digits_value(m) * 60000 + digits_value(sec) * 1000 + digits_value(cs) * 10) as u64,
        ),
{
    lemma_split_digits(m);
    lemma_split_digits(sec);
    lemma_split_digits(cs);
    let e: Seq<char> = Seq::empty();
    let colon: Seq<char> = seq![':'];
    let dot: Seq<char> = seq!['.'];
    // [m]
    lemma_split_appended(e, m);
    assert(e + m =~= m);
    assert(split_by(e, ts_sep()) == seq![e]);
    assert(split_by(m, ts_sep()) =~= seq![m]);
    // [m, ""]
    let a = m + colon;
    assert(a.drop_last() =~= m);
    assert(split_by(a, ts_sep()) =~= seq![m, e]);
    // [m, sec]
    let b = a + sec;
    lemma_split_appended(a, sec);
    assert(split_by(b, ts_sep()) =~= seq![m, sec]);
    if cs.len() == 2 {
        let c = b + dot;
        assert(c.drop_last() =~= b);
        assert(split_by(c, ts_sep()) =~= seq![m, sec, e]);
        lemma_split_appended(c, cs);
        assert(split_by(c + cs, ts_sep()) =~= seq![m, sec, cs]);
        assert(cs.take(2) =~= cs);
    }
}

/// Start of the piece that follows the `k`-th separator (or `lo` for the first piece).
spec fn piece_start(seps: Seq<usize>, lo: usize, k: int) -> int {
    if k == 0 {
        lo as int
    } else {
        seps[k - 1] + 1
    }
}

spec fn pieces_match(s: Seq<char>, seps: Seq<usize>, lo: usize, i: int) -> bool {
    let p = split_by(s.subrange(lo as int, i), ts_sep());
    &&& p.len() == seps.len() + 1
    &&& forall|k: int|
        0 <= k < seps.len() ==> #[trigger] p[k] == s.subrange(
            piece_start(seps, lo, k),
            seps[k] as int,
        )
    &&& p[seps.len() as int] == s.subrange(piece_start(seps, lo, seps.len() as int), i)
    &&& forall|k: int| 0 <= k < seps.len() ==> lo <= #[trigger] seps[k] < i
    &&& forall|k: int| 0 < k < seps.len() ==> seps[k - 1] < #[trigger] seps[k]
}

/// Parse a timestamp held in `s[lo..hi]`.
fn parse_timestamp(s: &Vec<char>, lo: usize, hi: usize) -> (r: Option<u64>)
    requires
        lo <= hi <= s.len(),
    ensures
        r == timestamp_spec(s@.subrange(lo as int, hi as int)),
{
    let mut seps: Vec<usize> = Vec::new();
    let mut i = lo;
    assert(s@.subrange(lo as int, lo as int) =~= Seq::<char>::empty());
    while i < hi
        invariant
            lo <= i <= hi <= s.len(),
            pieces_match(s@, seps@, lo, i as int),
        decreases hi - i,
    {
        let c = s[i];
        proof {
            let w = s@.subrange(lo as int, i + 1);
            assert(w.drop_last() =~= s@.subrange(lo as int, i as int));
            assert(w.last() == c);
        }
        let ghost old_seps = seps@;
        if c == ':' || c == '.' {
            seps.push(i);
            proof {
                let p = split_by(s@.subrange(lo as int, i + 1), ts_sep());
                let p0 = split_by(s@.subrange(lo as int, i as int), ts_sep());
                assert(p == p0.push(Seq::<char>::empty()));
                assert forall|k: int| 0 <= k < seps@.len() implies #[trigger] p[k] == s@.subrange(
                    piece_start(seps@, lo, k),
                    seps@[k] as int,
                ) by {
                    if k < old_seps.len() {
                        assert(piece_start(seps@, lo, k) == piece_start(old_seps, lo, k));
                    } else {
                        assert(piece_start(seps@, lo, k) == piece_start(old_seps, lo, k));
                    }
                }
                assert(s@.subrange(i + 1, i + 1) =~= Seq::<char>::empty());
            }
        } else {
            proof {
                let p = split_by(s@.subrange(lo as int, i + 1), ts_sep());
                let p0 = split_by(s@.subrange(lo as int, i as int), ts_sep());
                lemma_split_by_nonempty(s@.subrange(lo as int, i as int), ts_sep());
                assert(p == p0.drop_last().push(p0.last().push(c)));
                let st = piece_start(seps@, lo, seps@.len() as int);
                assert(s@.subrange(st, i + 1) =~= s@.subrange(st, i as int).push(c));
                assert forall|k: int| 0 <= k < seps@.len() implies #[trigger] p[k] == p0[k] by {}
            }
        }
        i = i + 1;
    }
    let ghost parts = split_by(s@.subrange(lo as int, hi as int), ts_sep());
    let n = seps.len();
    if n < 1 || n > 2 {
        return None;
    }
    let e0 = seps[0];
    assert(parts[0] == s@.subrange(lo as int, e0 as int));
    let minutes = match parse_u64_range(s, lo, e0) {
        Some(v) => v,
        None => return None,
    };
    let e1 = if n == 2 {
        seps[1]
    } else {
        hi
    };
    assert(parts[1] == s@.subrange(e0 + 1, e1 as int));
    let seconds = match parse_u64_range(s, e0 + 1, e1) {
        Some(v) => v,
        None => return None,
    };
    let mut centis: u64 = 0;
    if n == 2 {
        let c0 = e1 + 1;
        assert(parts[2] == s@.subrange(c0 as int, hi as int));
        if hi - c0 >= 2 {
            assert(parts[2].take(2) =~= s@.subrange(c0 as int, c0 + 2));
            centis = match parse_u64_range(s, c0, c0 + 2) {
                Some(v) => v,
                None => 0,
            };
        } else {
            let v = match parse_u64_range(s, c0, hi) {
                Some(v) => v,
                None => 0,
            };
            assert(v <= 9) by {
                let d = parts[2];
                if d.len() > 0 && parse_u64_spec(d) is Some {
                    let e = if d[0] == '+' { d.drop_first() } else { d };
                    assert(e.len() == 1);
                    assert(e.drop_last().len() == 0);
                    assert(digits_value(e.drop_last()) == 0);
                    assert(is_digit(e[0]));
                    assert(e.last() == e[0]);
                    assert(digits_value(e) == digits_value(e.drop_last()) * 10 + (e.last() as nat - '0' as nat));
                }
            }
            centis = v * 10;
        }
        assert(centis as int == centis_spec(parts[2]));
    }
    let total: u128 = minutes as u128 * 60000 + seconds as u128 * 1000 + centis as u128 * 10;
    if total > u64::MAX as u128 {
        return None;
    }
    Some(total as u64)
}

// ---------------------------------------------------------------------------
// Word-timed text (Enhanced LRC)
// ---------------------------------------------------------------------------

/// Close the word being built, if it has both a start time and some text.
pub open spec fn finish_word_spec(
    words: Seq<(u64, Seq<char>)>,
    start: Option<u64>,
    cur: Seq<char>,
) -> Seq<(u64, Seq<char>)> {
    if cur.len() > 0 && start is Some {
        words.push((start->0, cur))
    } else {
        words
    }
}

/// The words of `rem` read on from the state (`words` done, the word being
/// built starts at `start` and holds `cur`). A `<mm:ss.xx>` tag closes the
/// current word (when it has a start and some text) and starts a new one; any
/// other `<...>` tag, an unclosed `<`, and all other characters are text.
/// Text read before the first timestamp joins the first timed word.
pub open spec fn timed_words_from(
    words: Seq<(u64, Seq<char>)>,
    start: Option<u64>,
    cur: Seq<char>,
    rem: Seq<char>,
) -> Seq<(u64, Seq<char>)>
    decreases rem.len(),
{
    if rem.len() == 0 {
        finish_word_spec(words, start, cur)
    } else {
        let p = index_of(rem, '<');
        if p >= rem.len() {
            finish_word_spec(words, start, cur + rem)
        } else {
            let cur1 = cur + rem.subrange(0, p);
            let after = rem.subrange(p, rem.len() as int);
            let q = index_of(after, '>');
            if q >= after.len() {
                finish_word_spec(words, start, cur1 + after)
            } else {
                proof {
                    lemma_index_of_bound(rem, '<');
                    lemma_index_of_bound(after, '>');
                }
                let tag = after.subrange(1, q);
                let rem2 = after.subrange(q + 1, after.len() as int);
                match timestamp_spec(tag) {
                    Some(ts) => if cur1.len() > 0 && start is Some {
                        timed_words_from(words.push((start->0, cur1)), Some(ts), Seq::empty(), rem2)
                    } else {
                        timed_words_from(words, Some(ts), cur1, rem2)
                    },
                    None => timed_words_from(
                        words,
                        start,
                        cur1 + seq!['<'] + tag + seq!['>'],
                        rem2,
                    ),
                }
            }
        }
    }
}

/// The timed words of an Enhanced LRC text `<mm:ss.xx>word1<mm:ss.xx>word2...`.
pub open spec fn timed_words_spec(text: Seq<char>) -> Seq<(u64, Seq<char>)> {
    timed_words_from(Seq::empty(), None, Seq::empty(), text)
}

/// `rem` with its time tags (`<...>` tags that hold a timestamp) taken out,
/// read as the word parser reads it, and whether it held any.
pub open spec fn without_time_tags(rem: Seq<char>) -> (Seq<char>, bool)
    decreases rem.len(),
{
    if rem.len() == 0 {
        (rem, false)
    } else {
        let p = index_of(rem, '<');
        if p >= rem.len() {
            (rem, false)
        } else {
            let after = rem.subrange(p, rem.len() as int);
            let q = index_of(after, '>');
            if q >= after.len() {
                (rem, false)
            } else {
                proof {
                    lemma_index_of_bound(rem, '<');
                    lemma_index_of_bound(after, '>');
                }
                let tag = after.subrange(1, q);
                let rest = without_time_tags(after.subrange(q + 1, after.len() as int));
                match timestamp_spec(tag) {
                    Some(_) => (rem.subrange(0, p) + rest.0, true),
                    None => (rem.subrange(0, p) + seq!['<'] + tag + seq!['>'] + rest.0, rest.1),
                }
            }
        }
    }
}

/// The texts of `words`, one after the other.
pub open spec fn joined_texts(words: Seq<(u64, Seq<char>)>) -> Seq<char>
    decreases words.len(),
{
    if words.len() == 0 {
        Seq::empty()
    } else {
        joined_texts(words.drop_last()) + words.last().1
    }
}

proof fn lemma_joined_push(words: Seq<(u64, Seq<char>)>, w: (u64, Seq<char>))
    ensures
        joined_texts(words.push(w)) == joined_texts(words) + w.1,
{
    assert(words.push(w).drop_last() =~= words);
}

proof fn lemma_timed_words_join(
    words: Seq<(u64, Seq<char>)>,
    start: Option<u64>,
    cur: Seq<char>,
    rem: Seq<char>,
)
    ensures
        joined_texts(timed_words_from(words, start, cur, rem)) == joined_texts(words) + if start
            is Some || without_time_tags(rem).1 {
            cur + without_time_tags(rem).0
        } else {
            Seq::empty()
        },
        start is None && !without_time_tags(rem).1 ==> timed_words_from(words, start, cur, rem)
            == words,
    decreases rem.len(),
{
    if rem.len() == 0 {
        if cur.len() > 0 && start is Some {
            lemma_joined_push(words, (start->0, cur));
        }
        assert(joined_texts(words) + Seq::<char>::empty() =~= joined_texts(words));
        assert(cur + rem =~= cur);
    } else {
        let p = index_of(rem, '<');
        lemma_index_of_bound(rem, '<');
        if p >= rem.len() {
            if cur.len() + rem.len() > 0 && start is Some {
                lemma_joined_push(words, (start->0, cur + rem));
            }
            assert(joined_texts(words) + Seq::<char>::empty() =~= joined_texts(words));
        } else {
            let cur1 = cur + rem.subrange(0, p);
            let after = rem.subrange(p, rem.len() as int);
            let q = index_of(after, '>');
            lemma_index_of_bound(after, '>');
            if q >= after.len() {
                assert(cur1 + after =~= cur + rem);
                if (cur1 + after).len() > 0 && start is Some {
                    lemma_joined_push(words, (start->0, cur1 + after));
                }
                assert(joined_texts(words) + Seq::<char>::empty() =~= joined_texts(words));
            } else {
                let tag = after.subrange(1, q);
                let rem2 = after.subrange(q + 1, after.len() as int);
                let r2 = without_time_tags(rem2);
                match timestamp_spec(tag) {
                    Some(ts) => {
                        if cur1.len() > 0 && start is Some {
                            let w2 = words.push((start->0, cur1));
                            lemma_timed_words_join(w2, Some(ts), Seq::empty(), rem2);
                            lemma_joined_push(words, (start->0, cur1));
                            assert(Seq::<char>::empty() + r2.0 =~= r2.0);
                            assert(joined_texts(words) + cur1 + r2.0 =~= joined_texts(words) + (cur
                                + (rem.subrange(0, p) + r2.0)));
                        } else {
                            lemma_timed_words_join(words, Some(ts), cur1, rem2);
                            assert(cur1 + r2.0 =~= cur + (rem.subrange(0, p) + r2.0));
                        }
                    },
                    None => {
                        let cur2 = cur1 + seq!['<'] + tag + seq!['>'];
                        lemma_timed_words_join(words, start, cur2, rem2);
                        assert(cur2 + r2.0 =~= cur + (rem.subrange(0, p) + seq!['<'] + tag + seq![
                            '>',
                        ] + r2.0));
                    },
                }
            }
        }
    }
}

/// Law: the words of a word-timed text, read one after the other, give the
/// text with its time tags taken out (other `<...>` tags and an unclosed
/// `<` stay as text); a text without time tags gives no words. Every word
/// has some text.
pub proof fn lemma_timed_words_spell_text(text: Seq<char>)
    ensures
        without_time_tags(text).1 ==> joined_texts(timed_words_spec(text)) == without_time_tags(
            text,
        ).0,
        !without_time_tags(text).1 ==> timed_words_spec(text).len() == 0,
        words_have_text(timed_words_spec(text)),
{
    lemma_timed_words_join(Seq::empty(), None, Seq::empty(), text);
    lemma_timed_words_have_text(Seq::empty(), None, Seq::empty(), text);
    assert(Seq::<char>::empty() + without_time_tags(text).0 =~= without_time_tags(text).0);
    assert(joined_texts(Seq::<(u64, Seq<char>)>::empty()) + without_time_tags(text).0
        =~= without_time_tags(text).0);
}

fn push_range(cur: &mut Vec<char>, s: &Vec<char>, lo: usize, hi: usize)
    requires
        lo <= hi <= s.len(),
    ensures
        final(cur)@ == old(cur)@ + s@.subrange(lo as int, hi as int),
{
    let mut i = lo;
    while i < hi
        invariant
            lo <= i <= hi <= s.len(),
            cur@ == old(cur)@ + s@.subrange(lo as int, i as int),
        decreases hi - i,
    {
        cur.push(s[i]);
        i = i + 1;
        assert(cur@ =~= old(cur)@ + s@.subrange(lo as int, i as int));
    }
}

fn finish_word(words: &mut Vec<LyricsWord>, start: Option<u64>, cur: &Vec<char>)
    ensures
        words_view(final(words)@) == finish_word_spec(words_view(old(words)@), start, cur@),
{
    if cur.len() > 0 {
        if let Some(st) = start {
            words.push(LyricsWord { start: st, text: string_from_chars(cur) });
            assert(words_view(words@) =~= words_view(old(words)@).push((st, cur@)));
        }
    }
}

/// The timed words of the text `s[lo..hi]`.
fn parse_timed_words(s: &Vec<char>, lo: usize, hi: usize) -> (words: Vec<LyricsWord>)
    requires
        lo <= hi <= s.len(),
    ensures
        words_view(words@) == timed_words_spec(s@.subrange(lo as int, hi as int)),
{
    let mut words: Vec<LyricsWord> = Vec::new();
    let mut start: Option<u64> = None;
    let mut cur: Vec<char> = Vec::new();
    let mut pos = lo;
    assert(words_view(words@) =~= Seq::<(u64, Seq<char>)>::empty());
    assert(cur@ =~= Seq::<char>::empty());
    while pos < hi
        invariant
            lo <= pos <= hi <= s.len(),
            timed_words_from(words_view(words@), start, cur@, s@.subrange(pos as int, hi as int))
                == timed_words_spec(s@.subrange(lo as int, hi as int)),
        decreases hi - pos,
    {
        let ghost rem = s@.subrange(pos as int, hi as int);
        let ghost wv = words_view(words@);
        let ghost cur0 = cur@;
        let p = find_char(s, pos, hi, '<');
        push_range(&mut cur, s, pos, p);
        assert(rem.subrange(0, p - pos) =~= s@.subrange(pos as int, p as int));
        if p == hi {
            assert(s@.subrange(hi as int, hi as int) =~= Seq::<char>::empty());
            assert(rem =~= s@.subrange(pos as int, p as int));
            pos = hi;
        } else {
            let ghost after = rem.subrange(p - pos, rem.len() as int);
            assert(after =~= s@.subrange(p as int, hi as int));
            let q = find_char(s, p, hi, '>');
            if q == hi {
                push_range(&mut cur, s, p, hi);
                assert(s@.subrange(hi as int, hi as int) =~= Seq::<char>::empty());
                pos = hi;
            } else {
                assert(s@[p as int] == '<');
                assert(q > p);
                assert(after.subrange(1, q - p) =~= s@.subrange(p + 1, q as int));
                assert(after.subrange(q - p + 1, after.len() as int) =~= s@.subrange(
                    q + 1,
                    hi as int,
                ));
                let ts = parse_timestamp(s, p + 1, q);
                match ts {
                    Some(t) => {
                        if cur.len() > 0 && start.is_some() {
                            finish_word(&mut words, start, &cur);
                            cur = Vec::new();
                            assert(cur@ =~= Seq::<char>::empty());
                        }
                        start = Some(t);
                    },
                    None => {
                        cur.push('<');
                        push_range(&mut cur, s, p + 1, q);
                        cur.push('>');
                        assert(cur@ =~= cur0 + s@.subrange(pos as int, p as int) + seq!['<']
                            + s@.subrange(p + 1, q as int) + seq!['>']);
                    },
                }
                pos = q + 1;
            }
        }
    }
    assert(s@.subrange(pos as int, hi as int) =~= Seq::<char>::empty());
    finish_word(&mut words, start, &cur);
    words
}

// ---------------------------------------------------------------------------
// Lines
// ---------------------------------------------------------------------------

/// The timestamps of the leading `[...]` tags of `rest` (appended to `acc`),
/// and what follows them. Reading stops at the first tag that is not a
/// timestamp (that tag is consumed) or where no `]` closes the tag.
pub open spec fn leading_tags(rest: Seq<char>, acc: Seq<u64>) -> (Seq<u64>, Seq<char>)
    decreases rest.len(),
{
    if rest.len() > 0 && rest[0] == '[' && index_of(rest, ']') < rest.len() {
        proof {
            lemma_index_of_bound(rest, ']');
        }
        let j = index_of(rest, ']');
        let tag = rest.subrange(1, j);
        let after = rest.subrange(j + 1, rest.len() as int);
        match timestamp_spec(tag) {
            Some(ts) => leading_tags(after, acc.push(ts)),
            None => (acc, after),
        }
    } else {
        (acc, rest)
    }
}

/// Record `words` as a timed line at each of `tss`, replacing what was there.
pub open spec fn insert_timed(
    m: Map<u64, LineView>,
    tss: Seq<u64>,
    words: Seq<(u64, Seq<char>)>,
) -> Map<u64, LineView>
    decreases tss.len(),
{
    if tss.len() == 0 {
        m
    } else {
        insert_timed(m, tss.drop_last(), words).insert(
            tss.last(),
            LineView::Timed { time: tss.last(), words },
        )
    }
}

/// Append `text` to the plain line at each of `tss` (creating it where there
/// is none; a timed line there is kept as it is).
pub open spec fn insert_plain(m: Map<u64, LineView>, tss: Seq<u64>, text: Seq<char>) -> Map<
    u64,
    LineView,
>
    decreases tss.len(),
{
    if tss.len() == 0 {
        m
    } else {
        let m1 = insert_plain(m, tss.drop_last(), text);
        let t = tss.last();
        if m1.contains_key(t) {
            match m1[t] {
                LineView::Plain { time, text: v } => m1.insert(
                    t,
                    LineView::Plain { time, text: v.push(text) },
                ),
                LineView::Timed { .. } => m1,
            }
        } else {
            m1.insert(t, LineView::Plain { time: t, text: seq![text] })
        }
    }
}

/// What one line of an LRC file adds to the lyrics read so far.
pub open spec fn apply_line(m: Map<u64, LineView>, raw: Seq<char>) -> Map<u64, LineView> {
    let line = trim(raw);
    if line.len() == 0 || line[0] != '[' {
        m
    } else {
        let (tss, rest) = leading_tags(line, Seq::empty());
        if tss.len() == 0 {
            m
        } else {
            let text = trim(rest);
            if has_char(text, '<') {
                let words = timed_words_spec(text);
                if words.len() == 0 {
                    m
                } else {
                    insert_timed(m, tss, words)
                }
            } else {
                insert_plain(m, tss, text)
            }
        }
    }
}

pub open spec fn nl() -> spec_fn(char) -> bool {
    |c: char| c == '\n'
}

/// A line without the `\r` of a `\r\n` ending.
pub open spec fn strip_cr(l: Seq<char>) -> Seq<char> {
    if l.len() > 0 && l.last() == '\r' {
        l.drop_last()
    } else {
        l
    }
}

/// The lines of `s` (`str::lines`): split at `\n`, without a final empty
/// piece, each without the `\r` of a `\r\n`.
pub open spec fn lines_spec(s: Seq<char>) -> Seq<Seq<char>> {
    let p = split_by(s, nl());
    let p2 = if p.last().len() == 0 {
        p.drop_last()
    } else {
        p
    };
    strip_lines(p2)
}

/// Each line without the `\r` of a `\r\n` ending.
pub open spec fn strip_lines(ls: Seq<Seq<char>>) -> Seq<Seq<char>> {
    ls.map_values(|l: Seq<char>| strip_cr(l))
}

/// The lyrics that the lines `ls` give, applied in order.
pub open spec fn apply_lines(ls: Seq<Seq<char>>) -> Map<u64, LineView>
    decreases ls.len(),
{
    if ls.len() == 0 {
        Map::empty()
    } else {
        apply_line(apply_lines(ls.drop_last()), ls.last())
    }
}

/// The lyrics of an LRC text: its lines applied in order.
pub open spec fn parse_lrc_spec(s: Seq<char>) -> Map<u64, LineView> {
    apply_lines(lines_spec(s))
}

/// The timestamps of the leading tags of `s[lo..hi]`, and where the rest begins.
fn read_leading_tags(s: &Vec<char>, lo: usize, hi: usize) -> (r: (Vec<u64>, usize))
    requires
        lo <= hi <= s.len(),
    ensures
        lo <= r.1 <= hi,
        (r.0@, s@.subrange(r.1 as int, hi as int)) == leading_tags(
            s@.subrange(lo as int, hi as int),
            Seq::empty(),
        ),
{
    let mut tss: Vec<u64> = Vec::new();
    let mut pos = lo;
    let mut done = false;
    while !done
        invariant
            lo <= pos <= hi <= s.len(),
            done ==> (tss@, s@.subrange(pos as int, hi as int)) == leading_tags(
                s@.subrange(lo as int, hi as int),
                Seq::empty(),
            ),
            !done ==> leading_tags(s@.subrange(pos as int, hi as int), tss@) == leading_tags(
                s@.subrange(lo as int, hi as int),
                Seq::empty(),
            ),
        decreases 2 * (hi - pos) + if done {
            0int
        } else {
            1int
        },
    {
        let ghost rest = s@.subrange(pos as int, hi as int);
        if pos < hi && s[pos] == '[' {
            let j = find_char(s, pos, hi, ']');
            if j < hi {
                assert(rest[0] == '[');
                assert(rest.subrange(1, j - pos) =~= s@.subrange(pos + 1, j as int));
                assert(rest.subrange(j - pos + 1, rest.len() as int) =~= s@.subrange(
                    j + 1,
                    hi as int,
                ));
                match parse_timestamp(s, pos + 1, j) {
                    Some(ts) => {
                        tss.push(ts);
                    },
                    None => {
                        done = true;
                    },
                }
                pos = j + 1;
            } else {
                done = true;
            }
        } else {
            done = true;
        }
    }
    (tss, pos)
}

fn clone_words(words: &Vec<LyricsWord>) -> (out: Vec<LyricsWord>)
    ensures
        words_view(out@) == words_view(words@),
{
    let mut out: Vec<LyricsWord> = Vec::new();
    let mut i: usize = 0;
    while i < words.len()
        invariant
            i <= words.len(),
            out@.len() == i,
            words_view(out@) == words_view(words@).take(i as int),
        decreases words.len() - i,
    {
        let w = &words[i];
        let ghost before = out@;
        let t = w.text.clone();
        assert(t@ == w.text@);
        out.push(LyricsWord { start: w.start, text: t });
        proof {
            assert(out@[i as int]@ == words@[i as int]@);
            assert forall|k: int| 0 <= k < i + 1 implies #[trigger] words_view(out@)[k] == words_view(
                words@,
            ).take(i + 1)[k] by {
                if k < i {
                    assert(out@[k] == before[k]);
                    assert(words_view(before)[k] == words_view(words@).take(i as int)[k]);
                }
            }
        }
        i = i + 1;
        assert(words_view(out@) =~= words_view(words@).take(i as int));
    }
    assert(words_view(words@).take(i as int) =~= words_view(words@));
    out
}

proof fn lemma_view_insert(m: Map<u64, LyricsLine>, k: u64, l: LyricsLine)
    ensures
        lyrics_view(m.insert(k, l)) == lyrics_view(m).insert(k, l@),
{
    assert(lyrics_view(m.insert(k, l)) =~= lyrics_view(m).insert(k, l@));
}

proof fn lemma_view_remove(m: Map<u64, LyricsLine>, k: u64)
    ensures
        lyrics_view(m.remove(k)) == lyrics_view(m).remove(k),
{
    assert(lyrics_view(m.remove(k)) =~= lyrics_view(m).remove(k));
}

fn store_timed(lyrics: &mut BTreeMap<u64, LyricsLine>, tss: &Vec<u64>, words: &Vec<LyricsWord>)
    ensures
        lyrics_view(final(lyrics)@) == insert_timed(
            lyrics_view(old(lyrics)@),
            tss@,
            words_view(words@),
        ),
{
    let mut k: usize = 0;
    assert(tss@.take(0) =~= Seq::<u64>::empty());
    while k < tss.len()
        invariant
            k <= tss.len(),
            lyrics_view(lyrics@) == insert_timed(
                lyrics_view(old(lyrics)@),
                tss@.take(k as int),
                words_view(words@),
            ),
        decreases tss.len() - k,
    {
        let t = tss[k];
        let line = LyricsLine::Timed { time: t, words: clone_words(words) };
        proof {
            lemma_view_insert(lyrics@, t, line);
            assert(tss@.take(k + 1).drop_last() =~= tss@.take(k as int));
        }
        lyrics.insert(t, line);
        k = k + 1;
    }
    assert(tss@.take(k as int) =~= tss@);
}

fn store_plain(lyrics: &mut BTreeMap<u64, LyricsLine>, tss: &Vec<u64>, text: &String)
    ensures
        lyrics_view(final(lyrics)@) == insert_plain(lyrics_view(old(lyrics)@), tss@, text@),
{
    let mut k: usize = 0;
    assert(tss@.take(0) =~= Seq::<u64>::empty());
    while k < tss.len()
        invariant
            k <= tss.len(),
            lyrics_view(lyrics@) == insert_plain(
                lyrics_view(old(lyrics)@),
                tss@.take(k as int),
                text@,
            ),
        decreases tss.len() - k,
    {
        let t = tss[k];
        let ghost before = lyrics@;
        proof {
            assert(tss@.take(k + 1).drop_last() =~= tss@.take(k as int));
            lemma_view_remove(before, t);
        }
        match lyrics.remove(&t) {
            Some(LyricsLine::Plain { time, text: mut v }) => {
                let ghost v0 = v@;
                v.push(text.clone());
                assert(texts_view(v@) =~= texts_view(v0).push(text@));
                let line = LyricsLine::Plain { time, text: v };
                proof {
                    lemma_view_insert(lyrics@, t, line);
                    assert(lyrics_view(lyrics@).insert(t, line@) =~= lyrics_view(before).insert(
                        t,
                        line@,
                    ));
                }
                lyrics.insert(t, line);
            },
            Some(other) => {
                proof {
                    lemma_view_insert(lyrics@, t, other);
                    assert(lyrics_view(lyrics@).insert(t, other@) =~= lyrics_view(before));
                }
                lyrics.insert(t, other);
            },
            None => {
                let mut v: Vec<String> = Vec::new();
                v.push(text.clone());
                assert(texts_view(v@) =~= seq![text@]);
                let line = LyricsLine::Plain { time: t, text: v };
                proof {
                    lemma_view_insert(lyrics@, t, line);
                    assert(lyrics@ == before);
                }
                lyrics.insert(t, line);
            },
        }
        k = k + 1;
    }
    assert(tss@.take(k as int) =~= tss@);
}

/// Add the line `s[lo..hi]` (one line of the file, as `str::lines` gives it)
/// to `lyrics`.
fn add_line(lyrics: &mut BTreeMap<u64, LyricsLine>, s: &Vec<char>, lo: usize, hi: usize)
    requires
        lo <= hi <= s.len(),
    ensures
        lyrics_view(final(lyrics)@) == apply_line(
            lyrics_view(old(lyrics)@),
            s@.subrange(lo as int, hi as int),
        ),
{
    let (a, b) = trim_range(s, lo, hi);
    if a == b || s[a] != '[' {
        return;
    }
    let ghost line = s@.subrange(a as int, b as int);
    assert(line[0] == s@[a as int]);
    let (tss, rest) = read_leading_tags(s, a, b);
    if tss.len() == 0 {
        return;
    }
    let (c, d) = trim_range(s, rest, b);
    if contains_char(s, c, d, '<') {
        let words = parse_timed_words(s, c, d);
        if words.len() == 0 {
            return;
        }
        store_timed(lyrics, &tss, &words);
    } else {
        let text = string_from_range(s, c, d);
        store_plain(lyrics, &tss, &text);
    }
}

proof fn lemma_split_step(s: Seq<char>, i: int, start: int, done: Seq<Seq<char>>)
    requires
        0 <= start <= i < s.len(),
        split_by(s.take(i), nl()) == done.push(s.subrange(start, i)),
    ensures
        s[i] == '\n' ==> split_by(s.take(i + 1), nl()) == done.push(s.subrange(start, i)).push(
            s.subrange(i + 1, i + 1),
        ),
        s[i] != '\n' ==> split_by(s.take(i + 1), nl()) == done.push(s.subrange(start, i + 1)),
{
    assert(s.take(i + 1).drop_last() =~= s.take(i));
    assert(s.take(i + 1).last() == s[i]);
    assert(s.subrange(i + 1, i + 1) =~= Seq::<char>::empty());
    if s[i] != '\n' {
        assert(s.subrange(start, i + 1) =~= s.subrange(start, i).push(s[i]));
        assert(done.push(s.subrange(start, i)).drop_last() =~= done);
    }
}

proof fn lemma_apply_push(done: Seq<Seq<char>>, piece: Seq<char>)
    ensures
        apply_lines(strip_lines(done.push(piece))) == apply_line(
            apply_lines(strip_lines(done)),
            strip_cr(piece),
        ),
{
    assert(strip_lines(done.push(piece)) =~= strip_lines(done).push(strip_cr(piece)));
    assert(strip_lines(done.push(piece)).drop_last() =~= strip_lines(done));
}

/// Parse LRC lyrics, standard and Enhanced, into a map from start time (in
/// milliseconds) to line. Lines that hold no timestamp tag (metadata such as
/// `[ti:Title]`, blank lines, plain text) are skipped; a line with several
/// leading timestamps is recorded at each of them; plain lines that share a
/// timestamp (a line and its translation) are kept together in order.
pub fn parse_lrc(content: &str) -> (lyrics: BTreeMap<u64, LyricsLine>)
    ensures
        lyrics_view(lyrics@) == parse_lrc_spec(content@),
        forall|t: u64|
            #![trigger lyrics@.contains_key(t)]
            lyrics@.contains_key(t) <==> exists|k: int|
                0 <= k < lines_spec(content@).len() && #[trigger] line_gives_time(
                    lines_spec(content@)[k],
                    t,
                ),
{
    proof {
        lemma_parse_lrc_times(content@);
    }
    let s = str_to_chars(content);
    let mut lyrics: BTreeMap<u64, LyricsLine> = BTreeMap::new();
    let ghost mut done: Seq<Seq<char>> = Seq::empty();
    let mut start: usize = 0;
    let mut i: usize = 0;
    assert(lyrics_view(lyrics@) =~= Map::<u64, LineView>::empty());
    assert(strip_lines(done) =~= Seq::<Seq<char>>::empty());
    assert(s@.take(0) =~= Seq::<char>::empty());
    assert(s@.subrange(0, 0) =~= Seq::<char>::empty());
    while i < s.len()
        invariant
            start <= i <= s.len(),
            split_by(s@.take(i as int), nl()) == done.push(s@.subrange(start as int, i as int)),
            lyrics_view(lyrics@) == apply_lines(strip_lines(done)),
        decreases s.len() - i,
    {
        proof {
            lemma_split_step(s@, i as int, start as int, done);
        }
        if s[i] == '\n' {
            let mut end = i;
            if end > start && s[end - 1] == '\r' {
                end = end - 1;
            }
            let ghost piece = s@.subrange(start as int, i as int);
            assert(s@.subrange(start as int, end as int) =~= strip_cr(piece));
            add_line(&mut lyrics, &s, start, end);
            proof {
                lemma_apply_push(done, piece);
                done = done.push(piece);
            }
            start = i + 1;
        }
        i = i + 1;
    }
    assert(s@.take(s.len() as int) =~= s@);
    let ghost last = s@.subrange(start as int, s.len() as int);
    if start < s.len() {
        let mut end = s.len();
        if s[end - 1] == '\r' {
            end = end - 1;
        }
        assert(s@.subrange(start as int, end as int) =~= strip_cr(last));
        add_line(&mut lyrics, &s, start, end);
        proof {
            lemma_apply_push(done, last);
        }
    } else {
        assert(done.push(last).drop_last() =~= done);
    }
    proof {
        assert forall|t: u64| lyrics@.contains_key(t) <==> parse_lrc_spec(content@).contains_key(t) by {
            assert(lyrics_view(lyrics@).contains_key(t) == lyrics@.contains_key(t));
        }
    }
    lyrics
}

// ---------------------------------------------------------------------------
// What every parsed map satisfies
// ---------------------------------------------------------------------------

/// Every word has some text.
pub open spec fn words_have_text(words: Seq<(u64, Seq<char>)>) -> bool {
    forall|i: int| 0 <= i < words.len() ==> (#[trigger] words[i]).1.len() > 0
}

/// Every line is filed under its own start time, no line is empty, and no
/// timed word is empty.
pub open spec fn lyrics_wf(m: Map<u64, LineView>) -> bool {
    forall|k: u64|
        #![trigger m[k]]
        m.contains_key(k) ==> {
            &&& m[k].time() == k
            &&& match m[k] {
                LineView::Timed { words, .. } => words.len() > 0 && words_have_text(words),
                LineView::Plain { text, .. } => text.len() > 0,
            }
        }
}

proof fn lemma_finish_word_has_text(words: Seq<(u64, Seq<char>)>, start: Option<u64>, cur: Seq<char>)
    requires
        words_have_text(words),
    ensures
        words_have_text(finish_word_spec(words, start, cur)),
{
    let r = finish_word_spec(words, start, cur);
    assert forall|i: int| 0 <= i < r.len() implies (#[trigger] r[i]).1.len() > 0 by {
        if i < words.len() {
            assert(r[i] == words[i]);
        }
    }
}

proof fn lemma_timed_words_have_text(
    words: Seq<(u64, Seq<char>)>,
    start: Option<u64>,
    cur: Seq<char>,
    rem: Seq<char>,
)
    requires
        words_have_text(words),
    ensures
        words_have_text(timed_words_from(words, start, cur, rem)),
    decreases rem.len(),
{
    if rem.len() == 0 {
        lemma_finish_word_has_text(words, start, cur);
    } else {
        let p = index_of(rem, '<');
        if p >= rem.len() {
            lemma_finish_word_has_text(words, start, cur + rem);
        } else {
            let cur1 = cur + rem.subrange(0, p);
            let after = rem.subrange(p, rem.len() as int);
            let q = index_of(after, '>');
            if q >= after.len() {
                lemma_finish_word_has_text(words, start, cur1 + after);
            } else {
                lemma_index_of_bound(rem, '<');
                lemma_index_of_bound(after, '>');
                let tag = after.subrange(1, q);
                let rem2 = after.subrange(q + 1, after.len() as int);
                match timestamp_spec(tag) {
                    Some(ts) => if cur1.len() > 0 && start is Some {
                        lemma_finish_word_has_text(words, start, cur1);
                        lemma_timed_words_have_text(
                            words.push((start->0, cur1)),
                            Some(ts),
                            Seq::empty(),
                            rem2,
                        );
                    } else {
                        lemma_timed_words_have_text(words, Some(ts), cur1, rem2);
                    },
                    None => lemma_timed_words_have_text(
                        words,
                        start,
                        cur1 + seq!['<'] + tag + seq!['>'],
                        rem2,
                    ),
                }
            }
        }
    }
}

proof fn lemma_insert_timed_wf(m: Map<u64, LineView>, tss: Seq<u64>, words: Seq<(u64, Seq<char>)>)
    requires
        lyrics_wf(m),
        words.len() > 0,
        words_have_text(words),
    ensures
        lyrics_wf(insert_timed(m, tss, words)),
    decreases tss.len(),
{
    if tss.len() > 0 {
        lemma_insert_timed_wf(m, tss.drop_last(), words);
    }
}

proof fn lemma_insert_plain_wf(m: Map<u64, LineView>, tss: Seq<u64>, text: Seq<char>)
    requires
        lyrics_wf(m),
    ensures
        lyrics_wf(insert_plain(m, tss, text)),
    decreases tss.len(),
{
    if tss.len() > 0 {
        lemma_insert_plain_wf(m, tss.drop_last(), text);
        let m1 = insert_plain(m, tss.drop_last(), text);
        let t = tss.last();
        if m1.contains_key(t) {
            assert(m1[t].time() == t);
        }
    }
}

proof fn lemma_apply_lines_wf(ls: Seq<Seq<char>>)
    ensures
        lyrics_wf(apply_lines(ls)),
    decreases ls.len(),
{
    if ls.len() > 0 {
        lemma_apply_lines_wf(ls.drop_last());
        let m = apply_lines(ls.drop_last());
        let line = trim(ls.last());
        if line.len() > 0 && line[0] == '[' {
            let (tss, rest) = leading_tags(line, Seq::empty());
            let text = trim(rest);
            lemma_insert_plain_wf(m, tss, text);
            let words = timed_words_spec(text);
            lemma_timed_words_have_text(Seq::empty(), None, Seq::empty(), text);
            if words.len() > 0 {
                lemma_insert_timed_wf(m, tss, words);
            }
        }
    }
}

/// Law: whatever the text, every parsed line is filed under its own start
/// time, every line holds at least one word or one text, and every word of
/// a timed line has some text.
pub proof fn lemma_parse_lrc_wf(content: Seq<char>)
    ensures
        lyrics_wf(parse_lrc_spec(content)),
{
    lemma_apply_lines_wf(lines_spec(content));
}


// ---------------------------------------------------------------------------
// Which times a text gives lines at
// ---------------------------------------------------------------------------

/// The line `raw` gives a lyric line at `t`: `t` is among its leading
/// timestamp tags (after trimming), and its text (what follows the tags,
/// trimmed) is either free of `<` word tags, empty text included, or holds
/// at least one timed word.
pub open spec fn line_gives_time(raw: Seq<char>, t: u64) -> bool {
    let tags = leading_tags(trim(raw), Seq::empty());
    let text = trim(tags.1);
    tags.0.contains(t) && (!has_char(text, '<') || timed_words_spec(text).len() > 0)
}

proof fn lemma_insert_timed_keys(m: Map<u64, LineView>, tss: Seq<u64>, words: Seq<(u64, Seq<char>)>)
    ensures
        forall|t: u64|
            #![trigger insert_timed(m, tss, words).contains_key(t)]
            insert_timed(m, tss, words).contains_key(t) <==> (m.contains_key(t) || tss.contains(t)),
    decreases tss.len(),
{
    if tss.len() > 0 {
        lemma_insert_timed_keys(m, tss.drop_last(), words);
        assert forall|t: u64| tss.contains(t) <==> (tss.drop_last().contains(t) || t == tss.last()) by {
            if tss.contains(t) {
                let k = choose|k: int| 0 <= k < tss.len() && tss[k] == t;
                if k < tss.len() - 1 {
                    assert(tss.drop_last()[k] == t);
                }
            }
            if tss.drop_last().contains(t) {
                let k = choose|k: int| 0 <= k < tss.drop_last().len() && tss.drop_last()[k] == t;
                assert(tss[k] == t);
            }
            if t == tss.last() {
                assert(tss[tss.len() - 1] == t);
            }
        }
        let m1 = insert_timed(m, tss.drop_last(), words);
        assert forall|t: u64| insert_timed(m, tss, words).contains_key(t) <==> (m.contains_key(t) || tss.contains(t)) by {
            assert(m1.contains_key(t) <==> (m.contains_key(t) || tss.drop_last().contains(t)));
        }
    }
}

proof fn lemma_insert_plain_keys(m: Map<u64, LineView>, tss: Seq<u64>, text: Seq<char>)
    ensures
        forall|t: u64|
            #![trigger insert_plain(m, tss, text).contains_key(t)]
            insert_plain(m, tss, text).contains_key(t) <==> (m.contains_key(t) || tss.contains(t)),
    decreases tss.len(),
{
    if tss.len() > 0 {
        lemma_insert_plain_keys(m, tss.drop_last(), text);
        assert forall|t: u64| tss.contains(t) <==> (tss.drop_last().contains(t) || t == tss.last()) by {
            if tss.contains(t) {
                let k = choose|k: int| 0 <= k < tss.len() && tss[k] == t;
                if k < tss.len() - 1 {
                    assert(tss.drop_last()[k] == t);
                }
            }
            if tss.drop_last().contains(t) {
                let k = choose|k: int| 0 <= k < tss.drop_last().len() && tss.drop_last()[k] == t;
                assert(tss[k] == t);
            }
            if t == tss.last() {
                assert(tss[tss.len() - 1] == t);
            }
        }
        let m1 = insert_plain(m, tss.drop_last(), text);
        assert forall|t: u64| insert_plain(m, tss, text).contains_key(t) <==> (m.contains_key(t) || tss.contains(t)) by {
            assert(m1.contains_key(t) <==> (m.contains_key(t) || tss.drop_last().contains(t)));
        }
    }
}

proof fn lemma_apply_line_keys(m: Map<u64, LineView>, raw: Seq<char>)
    ensures
        forall|t: u64|
            #![trigger apply_line(m, raw).contains_key(t)]
            apply_line(m, raw).contains_key(t) <==> (m.contains_key(t) || line_gives_time(raw, t)),
{
    let line = trim(raw);
    let (tss, rest) = leading_tags(line, Seq::empty());
    let text = trim(rest);
    lemma_insert_plain_keys(m, tss, text);
    lemma_insert_timed_keys(m, tss, timed_words_spec(text));
    if line.len() == 0 || line[0] != '[' {
        assert(tss.len() == 0);
    }
}

proof fn lemma_apply_lines_keys(ls: Seq<Seq<char>>)
    ensures
        forall|t: u64|
            #![trigger apply_lines(ls).contains_key(t)]
            apply_lines(ls).contains_key(t) <==> exists|k: int|
                0 <= k < ls.len() && #[trigger] line_gives_time(ls[k], t),
    decreases ls.len(),
{
    if ls.len() > 0 {
        let l0 = ls.drop_last();
        lemma_apply_lines_keys(l0);
        lemma_apply_line_keys(apply_lines(l0), ls.last());
        assert forall|t: u64| apply_lines(ls).contains_key(t) <==> exists|k: int|
            0 <= k < ls.len() && #[trigger] line_gives_time(ls[k], t) by {
            if apply_lines(l0).contains_key(t) {
                let k = choose|k: int| 0 <= k < l0.len() && #[trigger] line_gives_time(l0[k], t);
                assert(ls[k] == l0[k]);
            }
            if line_gives_time(ls.last(), t) {
                assert(line_gives_time(ls[ls.len() - 1], t));
            }
            if exists|k: int| 0 <= k < ls.len() && #[trigger] line_gives_time(ls[k], t) {
                let k = choose|k: int| 0 <= k < ls.len() && #[trigger] line_gives_time(ls[k], t);
                if k < ls.len() - 1 {
                    assert(l0[k] == ls[k]);
                }
            }
        }
    }
}

/// Law: the parsed lyrics hold a line at time `t` exactly when some line
/// of the text gives one there: a line whose leading timestamp tags include
/// `t` and whose text is plain (blank text too) or holds timed words.
pub proof fn lemma_parse_lrc_times(content: Seq<char>)
    ensures
        forall|t: u64|
            #![trigger parse_lrc_spec(content).contains_key(t)]
            parse_lrc_spec(content).contains_key(t) <==> exists|k: int|
                0 <= k < lines_spec(content).len() && #[trigger] line_gives_time(
                    lines_spec(content)[k],
                    t,
                ),
{
    lemma_apply_lines_keys(lines_spec(content));
}

} // verus!
