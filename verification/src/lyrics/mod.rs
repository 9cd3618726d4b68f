//! Lyrics: parsing LRC text, and finding the line that goes with a
//! playback position.
pub mod parser;
pub mod sync;

pub use parser::{parse_lrc, LineView, LyricsLine, LyricsWord};
pub use sync::LyricsSync;

use crate::lyrics::parser::{lemma_parse_lrc_wf, lyrics_view, lyrics_wf, parse_lrc_spec};
use crate::text::{str_eq, str_to_chars, string_from_chars};
use crate::ui::lyrics::{display_of, lyrics_display, LyricsDisplay};
use std::collections::BTreeMap;
use vstd::prelude::*;
use vstd::std_specs::btree::{axiom_increasing_seq_meaning, increasing_seq, spec_keys_iter};
use vstd::std_specs::cmp::OrdSpec;
use vstd::laws_cmp::obeys_cmp;
use vstd::std_specs::iter::IteratorSpec;

verus! {

/// Holds the lyrics of the song that is playing.
pub struct LyricsManager {
    lyrics: BTreeMap<u64, LyricsLine>,
    loaded_path: Option<String>,
}

/// `k` is the latest start time at or before `position`.
pub open spec fn is_floor_key(m: Map<u64, LineView>, k: u64, position: u64) -> bool {
    &&& m.contains_key(k)
    &&& k <= position
    &&& forall|k2: u64| m.contains_key(k2) && k2 <= position ==> k2 <= k
}

/// `k` is the earliest start time after `position`.
pub open spec fn is_ceiling_key(m: Map<u64, LineView>, k: u64, position: u64) -> bool {
    &&& m.contains_key(k)
    &&& k > position
    &&& forall|k2: u64| m.contains_key(k2) && k2 > position ==> k <= k2
}

/// The line being sung at `position`: the one that starts last at or
/// before it.
pub open spec fn floor_line(m: Map<u64, LineView>, position: u64) -> Option<LineView> {
    if exists|k: u64| is_floor_key(m, k, position) {
        Some(m[choose|k: u64| is_floor_key(m, k, position)])
    } else {
        None
    }
}

/// The line after the one being sung: the first that starts after `position`.
pub open spec fn ceiling_line(m: Map<u64, LineView>, position: u64) -> Option<LineView> {
    if exists|k: u64| is_ceiling_key(m, k, position) {
        Some(m[choose|k: u64| is_ceiling_key(m, k, position)])
    } else {
        None
    }
}

/// The lyrics that loading gives: the external LRC file's when it holds any
/// timed line, else the embedded lyrics' when they do, else none.
pub open spec fn chosen_lyrics(external: Option<Seq<char>>, embedded: Option<Seq<char>>) -> Map<
    u64,
    LineView,
> {
    if external is Some && !parse_lrc_spec(external->0).is_empty() {
        parse_lrc_spec(external->0)
    } else if embedded is Some && !parse_lrc_spec(embedded->0).is_empty() {
        parse_lrc_spec(embedded->0)
    } else {
        Map::empty()
    }
}

/// The path separator `/`.
pub open spec fn is_path_sep(c: char) -> bool {
    c == '/'
}

/// Position of the `.` that starts the extension of the file name in `s`:
/// the last `.` after the last path separator, or -1 when there is none.
pub open spec fn extension_dot(s: Seq<char>) -> int
    decreases s.len(),
{
    if s.len() == 0 {
        -1
    } else if s.last() == '.' {
        s.len() - 1
    } else if is_path_sep(s.last()) {
        -1
    } else {
        extension_dot(s.drop_last())
    }
}

/// Whether the lyrics embedded in the song file are to be read: only when
/// the external `.lrc` text is missing or gives no timed line.
pub fn needs_embedded(external: Option<&str>) -> (b: bool)
    ensures
        b == !(external is Some && !parse_lrc_spec(external->0@).is_empty()),
{
    match external {
        Some(text) => {
            let lyrics = parse_lrc(text);
            assert(lyrics_view(lyrics@).dom() =~= lyrics@.dom());
            lyrics.is_empty()
        },
        None => true,
    }
}

/// The path of the external `.lrc` file of a song: the same name in the
/// same folder, with the extension `.lrc` in place of the song's own (or
/// added when its file name has none).
pub open spec fn lrc_path_spec(song_path: Seq<char>) -> Seq<char> {
    let d = extension_dot(song_path);
    let stem = if d >= 0 {
        song_path.take(d)
    } else {
        song_path
    };
    stem + seq!['.', 'l', 'r', 'c']
}

/// The path of the external `.lrc` file that goes with a song file.
pub fn lrc_path_for(song_path: &str) -> (p: String)
    ensures
        p@ == lrc_path_spec(song_path@),
{
    let s = str_to_chars(song_path);
    let mut i = s.len();
    assert(s@.take(i as int) =~= s@);
    while i > 0 && s[i - 1] != '.' && s[i - 1] != '/'
        invariant
            i <= s.len(),
            extension_dot(s@.take(i as int)) == extension_dot(s@),
        decreases i,
    {
        assert(s@.take(i as int).drop_last() =~= s@.take(i - 1));
        i = i - 1;
    }
    let mut stem: Vec<char> = Vec::new();
    let end = if i > 0 && s[i - 1] == '.' {
        assert(s@.take(i as int).last() == '.');
        i - 1
    } else {
        if i > 0 {
            assert(is_path_sep(s@.take(i as int).last()));
        } else {
            assert(s@.take(0) =~= Seq::<char>::empty());
        }
        s.len()
    };
    let mut k: usize = 0;
    while k < end
        invariant
            k <= end <= s.len(),
            stem@ == s@.take(k as int),
        decreases end - k,
    {
        stem.push(s[k]);
        k = k + 1;
        assert(stem@ =~= s@.take(k as int));
    }
    stem.push('.');
    stem.push('l');
    stem.push('r');
    stem.push('c');
    proof {
        if end == s.len() {
            assert(s@.take(s@.len() as int) =~= s@);
        }
        assert(stem@ =~= lrc_path_spec(song_path@));
    }
    string_from_chars(&stem)
}

impl Default for LyricsManager {
    fn default() -> (m: Self)
        ensures
            m.lines() == Map::<u64, LineView>::empty(),
            m.loaded() is None,
    {
        LyricsManager::new()
    }
}

impl LyricsManager {
    #[verifier::type_invariant]
    spec fn wf(self) -> bool {
        lyrics_wf(lyrics_view(self.lyrics@))
    }

    /// The lyrics held, by start time.
    pub closed spec fn lines(self) -> Map<u64, LineView> {
        lyrics_view(self.lyrics@)
    }

    /// The song whose lyrics are held.
    pub closed spec fn loaded(self) -> Option<Seq<char>> {
        match self.loaded_path {
            Some(p) => Some(p@),
            None => None,
        }
    }

    pub fn new() -> (m: Self)
        ensures
            m.lines() == Map::<u64, LineView>::empty(),
            m.loaded() is None,
    {
        let m = LyricsManager { lyrics: BTreeMap::new(), loaded_path: None };
        assert(lyrics_view(m.lyrics@) =~= Map::<u64, LineView>::empty());
        m
    }

    /// Whether the lyrics of `song_path` are the ones held.
    pub fn is_loaded(&self, song_path: &str) -> (b: bool)
        ensures
            b == (self.loaded() == Some(song_path@)),
    {
        match &self.loaded_path {
            Some(p) => str_eq(p.as_str(), song_path),
            None => false,
        }
    }

    /// Load the lyrics of `song_path` from the text of its external `.lrc`
    /// file and of the lyrics embedded in the audio file (`None` where there
    /// is no such text). Nothing changes when that song's lyrics are held
    /// already.
    pub fn load(&mut self, song_path: &str, external: Option<&str>, embedded: Option<&str>)
        ensures
            old(self).loaded() == Some(song_path@) ==> *final(self) == *old(self),
            old(self).loaded() != Some(song_path@) ==> {
                &&& final(self).loaded() == Some(song_path@)
                &&& final(self).lines() == chosen_lyrics(
                    match external {
                        Some(e) => Some(e@),
                        None => None,
                    },
                    match embedded {
                        Some(e) => Some(e@),
                        None => None,
                    },
                )
            },
    {
        if self.is_loaded(song_path) {
            return;
        }
        let new_lyrics = Self::load_lyrics(external, embedded);
        self.lyrics = new_lyrics;
        self.loaded_path = Some(song_path.to_owned());
    }

    fn load_lyrics(external: Option<&str>, embedded: Option<&str>) -> (m: BTreeMap<u64, LyricsLine>)
        ensures
            lyrics_view(m@) == chosen_lyrics(
                match external {
                    Some(e) => Some(e@),
                    None => None,
                },
                match embedded {
                    Some(e) => Some(e@),
                    None => None,
                },
            ),
            lyrics_wf(lyrics_view(m@)),
    {
        if let Some(content) = external {
            let lyrics = parse_lrc(content);
            proof {
                lemma_parse_lrc_wf(content@);
            }
            if !lyrics.is_empty() {
                return lyrics;
            }
            assert(lyrics_view(lyrics@).is_empty());
        }
        if let Some(content) = embedded {
            let lyrics = parse_lrc(content);
            proof {
                lemma_parse_lrc_wf(content@);
            }
            if !lyrics.is_empty() {
                return lyrics;
            }
            assert(lyrics_view(lyrics@).is_empty());
        }
        let m = BTreeMap::new();
        assert(lyrics_view(m@) =~= Map::<u64, LineView>::empty());
        m
    }
}

proof fn lemma_keys_increasing(rem: Seq<&u64>, i: int, j: int)
    requires
        increasing_seq(rem),
        0 <= i < j < rem.len(),
    ensures
        *rem[i] < *rem[j],
{
    assert(obeys_cmp::<u64>());
    assert(obeys_cmp::<&u64>());
    axiom_increasing_seq_meaning(rem);
    assert(OrdSpec::cmp_spec(&rem[i], &rem[j]) is Less);
}

impl LyricsManager {
    /// The start times held, in increasing order.
    fn sorted_keys(&self) -> (keys: Vec<u64>)
        ensures
            forall|i: int, j: int|
                #![trigger keys@[i], keys@[j]]
                0 <= i < j < keys@.len() ==> keys@[i] < keys@[j],
            forall|i: int| 0 <= i < keys@.len() ==> self.lyrics@.contains_key(#[trigger] keys@[i]),
            forall|k: u64|
                #[trigger] self.lyrics@.contains_key(k) ==> exists|i: int|
                    0 <= i < keys@.len() && keys@[i] == k,
    {
        let mut keys: Vec<u64> = Vec::new();
        for k in it: self.lyrics.keys()
            invariant
                keys@ == it.seq().take(it.index() as int).map_values(|r: &u64| *r),
        {
            keys.push(*k);
            assert(keys@ =~= it.seq().take(it.index() + 1).map_values(|r: &u64| *r));
        }
        proof {
            let rem = spec_keys_iter(&self.lyrics).remaining();
            assert(keys@ =~= rem.map_values(|r: &u64| *r));
            assert forall|i: int, j: int| 0 <= i < j < keys@.len() implies keys@[i] < keys@[j] by {
                lemma_keys_increasing(rem, i, j);
            }
            assert forall|k: u64| #[trigger] self.lyrics@.contains_key(k) implies exists|i: int|
                0 <= i < keys@.len() && keys@[i] == k by {
                assert(rem.unref().to_set().contains(k));
                let i = choose|i: int| 0 <= i < rem.len() && rem.unref()[i] == k;
                assert(keys@[i] == k);
            }
            assert forall|i: int| 0 <= i < keys@.len() implies self.lyrics@.contains_key(
                #[trigger] keys@[i],
            ) by {
                assert(rem.unref()[i] == keys@[i]);
                assert(rem.unref().to_set().contains(keys@[i]));
            }
        }
        keys
    }

    /// The current and the next lyrics line at `position` (for the karaoke
    /// display): the line that starts last at or before `position`, and the
    /// first line that starts after it.
    pub fn get_current_and_next(&self, position: u64) -> (r: (Option<&LyricsLine>, Option<&LyricsLine>))
        ensures
            r.0 is Some <==> exists|k: u64| self.lines().contains_key(k) && k <= position,
            r.0 matches Some(l) ==> exists|k: u64|
                is_floor_key(self.lines(), k, position) && l@ == #[trigger] self.lines()[k],
            r.1 is Some <==> exists|k: u64| self.lines().contains_key(k) && k > position,
            r.1 matches Some(l) ==> exists|k: u64|
                is_ceiling_key(self.lines(), k, position) && l@ == #[trigger] self.lines()[k],
            r.0 matches Some(l) ==> l@.time() <= position,
            r.1 matches Some(l) ==> l@.time() > position,
    {
        proof {
            use_type_invariant(self);
        }
        let keys = self.sorted_keys();
        let ghost m = self.lines();
        let mut f: usize = 0;
        while f < keys.len() && keys[f] <= position
            invariant
                f <= keys.len(),
                forall|j: int| 0 <= j < f ==> keys@[j] <= position,
            decreases keys.len() - f,
        {
            f = f + 1;
        }
        assert(forall|k: u64| m.contains_key(k) <==> self.lyrics@.contains_key(k));
        let current = if f > 0 {
            let k = keys[f - 1];
            assert(self.lyrics@.contains_key(keys@[f - 1]));
            let l = self.lyrics.get(&k);
            proof {
                assert(is_floor_key(m, k, position)) by {
                    assert forall|k2: u64| m.contains_key(k2) && k2 <= position implies k2 <= k by {
                        assert(self.lyrics@.contains_key(k2));
                        let i = choose|i: int| 0 <= i < keys@.len() && keys@[i] == k2;
                        if i > f - 1 {
                            if i >= f {
                                assert(keys@[f as int] <= keys@[i]);
                            }
                        }
                    }
                }
                let lv = l.unwrap();
                assert(*lv == self.lyrics@[k]);
                assert(is_floor_key(m, k, position) && lv@ == m[k]);
            }
            l
        } else {
            proof {
                assert forall|k2: u64| m.contains_key(k2) implies k2 > position by {
                    assert(self.lyrics@.contains_key(k2));
                    let i = choose|i: int| 0 <= i < keys@.len() && keys@[i] == k2;
                    if i > 0 {
                        assert(keys@[0] < keys@[i]);
                    }
                }
            }
            None
        };
        let next = if f < keys.len() {
            let k = keys[f];
            assert(self.lyrics@.contains_key(keys@[f as int]));
            let l = self.lyrics.get(&k);
            proof {
                assert(is_ceiling_key(m, k, position)) by {
                    assert forall|k2: u64| m.contains_key(k2) && k2 > position implies k <= k2 by {
                        assert(self.lyrics@.contains_key(k2));
                        let i = choose|i: int| 0 <= i < keys@.len() && keys@[i] == k2;
                        if i < f {
                            assert(keys@[i] <= position);
                        } else if i > f {
                            assert(keys@[f as int] < keys@[i]);
                        }
                    }
                }
                let lv = l.unwrap();
                assert(*lv == self.lyrics@[k]);
                assert(is_ceiling_key(m, k, position) && lv@ == m[k]);
            }
            l
        } else {
            proof {
                assert forall|k2: u64| m.contains_key(k2) implies k2 <= position by {
                    assert(self.lyrics@.contains_key(k2));
                    let i = choose|i: int| 0 <= i < keys@.len() && keys@[i] == k2;
                    assert(keys@[i] <= position);
                }
            }
            None
        };
        (current, next)
    }

    /// What the lyrics panel shows at `position`: the content for the line
    /// being sung and the line after it.
    pub fn display(&self, position: u64) -> (d: LyricsDisplay)
        ensures
            display_of(
                floor_line(self.lines(), position),
                ceiling_line(self.lines(), position),
                position,
                d,
            ),
    {
        proof {
            use_type_invariant(self);
        }
        let (current, next) = self.get_current_and_next(position);
        let ghost m = self.lines();
        proof {
            if let Some(l) = current {
                let k = choose|k: u64| is_floor_key(m, k, position) && l@ == #[trigger] m[k];
                let k2 = choose|k: u64| is_floor_key(m, k, position);
                assert(k2 == k);
                assert(floor_line(m, position) == Some(l@));
            } else {
                assert(!exists|k: u64| is_floor_key(m, k, position));
            }
            if let Some(l) = next {
                let k = choose|k: u64| is_ceiling_key(m, k, position) && l@ == #[trigger] m[k];
                let k2 = choose|k: u64| is_ceiling_key(m, k, position);
                assert(k2 == k);
                assert(ceiling_line(m, position) == Some(l@));
            } else {
                assert(!exists|k: u64| is_ceiling_key(m, k, position));
            }
        }
        lyrics_display(current, next, position)
    }
}


} // verus!
