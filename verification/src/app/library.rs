//! Filtering and sorting the playlist.
use crate::app::app::{all_indices, index_range, scroll_for, App, Song};
use crate::app::mode::{search_mode_name, sort_mode_name, SearchMode, SortMode};
use crate::text::{
    compare_text, contains_seq, dec, dec_chars, has_substring, lemma_text_order_antisym,
    lemma_text_order_trans, lowercase, push_all, push_str,
    str_to_chars, string_from_chars, text_order, to_lowercase,
};
use vstd::prelude::*;

verus! {

// ---------------------------------------------------------------------------
// Paths
// ---------------------------------------------------------------------------

/// The last component of a path (`Path::file_name` read as text): `None`
/// for a path that ends in `..` or is a root or empty.
pub uninterp spec fn path_file_name(p: Seq<char>) -> Option<Seq<char>>;

/// The path without its last component (`Path::parent` read as text):
/// `None` for a root or an empty path.
pub uninterp spec fn path_parent(p: Seq<char>) -> Option<Seq<char>>;

/// `Path::file_name` of `path`, as text. The result is `path_file_name` of
/// the path; the platform's path syntax is not restated here.
#[verifier::external_body]
fn file_name_of(path: &str) -> (r: Option<String>)
    ensures
        match r {
            Some(n) => path_file_name(path@) == Some(n@),
            None => path_file_name(path@) is None,
        },
{
    std::path::Path::new(path).file_name().and_then(|n| n.to_str()).map(|n| n.to_string())
}

/// `Path::parent` of `path`, as text. The result is `path_parent` of the
/// path; the platform's path syntax is not restated here.
#[verifier::external_body]
fn parent_of(path: &str) -> (r: Option<String>)
    ensures
        match r {
            Some(n) => path_parent(path@) == Some(n@),
            None => path_parent(path@) is None,
        },
{
    std::path::Path::new(path).parent().and_then(|p| p.to_str()).map(|p| p.to_string())
}

// ---------------------------------------------------------------------------
// Filtering
// ---------------------------------------------------------------------------

/// Whether a song matches the lowercased query `q` in the field that `mode` selects.
pub open spec fn song_matches(song: Song, mode: SearchMode, q: Seq<char>) -> bool {
    match mode {
        SearchMode::TitleArtist => has_substring(lowercase(song.title@), q) || has_substring(
            lowercase(song.artist@),
            q,
        ),
        SearchMode::Artist => has_substring(lowercase(song.artist@), q),
        SearchMode::Album => has_substring(lowercase(song.album@), q),
        SearchMode::Filename => match path_file_name(song.path@) {
            Some(n) => has_substring(lowercase(n), q),
            None => false,
        },
    }
}

/// The indices, in order, of the first `n` songs that match.
pub open spec fn matching(songs: Seq<Song>, mode: SearchMode, q: Seq<char>, n: nat) -> Seq<usize>
    decreases n,
{
    if n == 0 {
        Seq::empty()
    } else {
        let prev = matching(songs, mode, q, (n - 1) as nat);
        if song_matches(songs[n - 1], mode, q) {
            prev.push((n - 1) as usize)
        } else {
            prev
        }
    }
}

/// The songs that a search lists, in library order: all of them for an
/// empty query, else those whose field contains the query, ignoring case.
pub open spec fn filter_result(songs: Seq<Song>, mode: SearchMode, query: Seq<char>) -> Seq<usize> {
    if query.len() == 0 {
        all_indices(songs.len())
    } else {
        matching(songs, mode, lowercase(query), songs.len())
    }
}

fn song_matches_exec(song: &Song, mode: SearchMode, q: &Vec<char>) -> (b: bool)
    ensures
        b == song_matches(*song, mode, q@),
{
    match mode {
        SearchMode::TitleArtist => {
            let t = str_to_chars(to_lowercase(song.title.as_str()).as_str());
            if contains_seq(&t, q) {
                true
            } else {
                let a = str_to_chars(to_lowercase(song.artist.as_str()).as_str());
                contains_seq(&a, q)
            }
        },
        SearchMode::Artist => {
            let a = str_to_chars(to_lowercase(song.artist.as_str()).as_str());
            contains_seq(&a, q)
        },
        SearchMode::Album => {
            let a = str_to_chars(to_lowercase(song.album.as_str()).as_str());
            contains_seq(&a, q)
        },
        SearchMode::Filename => match file_name_of(song.path.as_str()) {
            Some(n) => {
                let l = str_to_chars(to_lowercase(n.as_str()).as_str());
                contains_seq(&l, q)
            },
            None => false,
        },
    }
}

// ---------------------------------------------------------------------------
// Sorting
// ---------------------------------------------------------------------------

/// A sort key: the primary text, then the text that breaks ties.
pub type SortKey = (Seq<char>, Seq<char>);

pub open spec fn key_order(a: SortKey, b: SortKey) -> int {
    let c = text_order(a.0, b.0);
    if c != 0 {
        c
    } else {
        text_order(a.1, b.1)
    }
}

/// `a` sorts strictly before `b`.
pub open spec fn key_before(a: SortKey, b: SortKey) -> bool {
    key_order(a, b) < 0
}

/// The parent folder of a path, or empty text when it has none.
pub open spec fn parent_or_empty(p: Seq<char>) -> Seq<char> {
    match path_parent(p) {
        Some(d) => d,
        None => Seq::empty(),
    }
}

/// What a song is sorted by: the lowercased title, artist, album or folder,
/// ties broken by the lowercased artist (for titles) or title (for the others).
pub open spec fn sort_key(song: Song, mode: SortMode) -> SortKey {
    match mode {
        SortMode::Title => (lowercase(song.title@), lowercase(song.artist@)),
        SortMode::Artist => (lowercase(song.artist@), lowercase(song.title@)),
        SortMode::Album => (lowercase(song.album@), lowercase(song.title@)),
        SortMode::Folder => (lowercase(parent_or_empty(song.path@)), lowercase(song.title@)),
    }
}

pub open spec fn song_keys(songs: Seq<Song>, mode: SortMode) -> Seq<SortKey> {
    songs.map_values(|s: Song| sort_key(s, mode))
}

/// Where the index `x` goes in the sorted `r`: before the first index that
/// sorts strictly after it, so after all that sort equal.
pub open spec fn insert_pos(r: Seq<usize>, keys: Seq<SortKey>, x: usize) -> int
    decreases r.len(),
{
    if r.len() == 0 {
        0
    } else if key_before(keys[x as int], keys[r[0] as int]) {
        0
    } else {
        1 + insert_pos(r.drop_first(), keys, x)
    }
}

/// The stable sort of `s` by `keys` (the order of `slice::sort_by`):
/// each index inserted, in turn, after the ones that do not sort after it.
pub open spec fn stable_sorted(s: Seq<usize>, keys: Seq<SortKey>) -> Seq<usize>
    decreases s.len(),
{
    if s.len() == 0 {
        s
    } else {
        let r = stable_sorted(s.drop_last(), keys);
        r.insert(insert_pos(r, keys, s.last()), s.last())
    }
}

pub open spec fn indices_in_range(s: Seq<usize>, n: nat) -> bool {
    forall|i: int| 0 <= i < s.len() ==> #[trigger] s[i] < n
}

proof fn lemma_insert_pos_at(r: Seq<usize>, keys: Seq<SortKey>, x: usize, j: int)
    requires
        0 <= j <= r.len(),
        forall|i: int| 0 <= i < j ==> !key_before(keys[x as int], #[trigger] keys[r[i] as int]),
        j == r.len() || key_before(keys[x as int], keys[r[j] as int]),
    ensures
        insert_pos(r, keys, x) == j,
    decreases j,
{
    if j > 0 {
        let t = r.drop_first();
        assert forall|i: int| 0 <= i < j - 1 implies !key_before(
            keys[x as int],
            #[trigger] keys[t[i] as int],
        ) by {
            assert(t[i] == r[i + 1]);
        }
        if j < r.len() {
            assert(t[j - 1] == r[j]);
        }
        lemma_insert_pos_at(t, keys, x, j - 1);
    }
}

proof fn lemma_stable_sorted_len(s: Seq<usize>, keys: Seq<SortKey>, n: nat)
    requires
        indices_in_range(s, n),
    ensures
        stable_sorted(s, keys).len() == s.len(),
        indices_in_range(stable_sorted(s, keys), n),
    decreases s.len(),
{
    if s.len() > 0 {
        lemma_stable_sorted_len(s.drop_last(), keys, n);
        let r = stable_sorted(s.drop_last(), keys);
        lemma_insert_pos_bound(r, keys, s.last());
        let p = insert_pos(r, keys, s.last());
        let out = r.insert(p, s.last());
        assert forall|i: int| 0 <= i < out.len() implies #[trigger] out[i] < n by {
            if i < p {
                assert(out[i] == r[i]);
            } else if i > p {
                assert(out[i] == r[i - 1]);
            }
        }
    }
}

proof fn lemma_insert_pos_bound(r: Seq<usize>, keys: Seq<SortKey>, x: usize)
    ensures
        0 <= insert_pos(r, keys, x) <= r.len(),
    decreases r.len(),
{
    if r.len() > 0 {
        lemma_insert_pos_bound(r.drop_first(), keys, x);
    }
}

/// The sort key of each song, lowercased once.
fn compute_keys(songs: &Vec<Song>, mode: SortMode) -> (keys: Vec<(Vec<char>, Vec<char>)>)
    ensures
        keys@.len() == songs@.len(),
        forall|i: int|
            0 <= i < keys@.len() ==> (#[trigger] keys@[i].0@, keys@[i].1@) == sort_key(
                songs@[i],
                mode,
            ),
{
    let mut keys: Vec<(Vec<char>, Vec<char>)> = Vec::new();
    let mut i: usize = 0;
    while i < songs.len()
        invariant
            i <= songs@.len(),
            keys@.len() == i,
            forall|j: int|
                0 <= j < i ==> (#[trigger] keys@[j].0@, keys@[j].1@) == sort_key(songs@[j], mode),
        decreases songs@.len() - i,
    {
        let song = &songs[i];
        let title = str_to_chars(to_lowercase(song.title.as_str()).as_str());
        let key = match mode {
            SortMode::Title => (title, str_to_chars(to_lowercase(song.artist.as_str()).as_str())),
            SortMode::Artist => (str_to_chars(to_lowercase(song.artist.as_str()).as_str()), title),
            SortMode::Album => (str_to_chars(to_lowercase(song.album.as_str()).as_str()), title),
            SortMode::Folder => {
                let dir = match parent_of(song.path.as_str()) {
                    Some(d) => d,
                    None => String::new(),
                };
                (str_to_chars(to_lowercase(dir.as_str()).as_str()), title)
            },
        };
        keys.push(key);
        i = i + 1;
    }
    keys
}

fn key_before_exec(keys: &Vec<(Vec<char>, Vec<char>)>, a: usize, b: usize) -> (r: bool)
    requires
        a < keys@.len(),
        b < keys@.len(),
    ensures
        r == key_before((keys@[a as int].0@, keys@[a as int].1@), (keys@[b as int].0@, keys@[b as int].1@)),
{
    let c = compare_text(&keys[a].0, &keys[b].0);
    if c != 0 {
        c < 0
    } else {
        compare_text(&keys[a].1, &keys[b].1) < 0
    }
}

/// Stable sort of song indices by the songs' keys.
fn sort_indices(idx: &Vec<usize>, keys: &Vec<(Vec<char>, Vec<char>)>, Ghost(kv): Ghost<Seq<SortKey>>) -> (out: Vec<usize>)
    requires
        indices_in_range(idx@, keys@.len()),
        kv.len() == keys@.len(),
        forall|i: int| 0 <= i < keys@.len() ==> (#[trigger] keys@[i].0@, keys@[i].1@) == kv[i],
    ensures
        out@ == stable_sorted(idx@, kv),
{
    let mut out: Vec<usize> = Vec::new();
    let mut k: usize = 0;
    while k < idx.len()
        invariant
            k <= idx@.len(),
            indices_in_range(idx@, keys@.len()),
            kv.len() == keys@.len(),
            forall|i: int| 0 <= i < keys@.len() ==> (#[trigger] keys@[i].0@, keys@[i].1@) == kv[i],
            out@ == stable_sorted(idx@.take(k as int), kv),
            indices_in_range(out@, keys@.len()),
        decreases idx@.len() - k,
    {
        let x = idx[k];
        let mut j: usize = 0;
        while j < out.len() && !key_before_exec(keys, x, out[j])
            invariant
                j <= out@.len(),
                x < keys@.len(),
                indices_in_range(out@, keys@.len()),
                kv.len() == keys@.len(),
                forall|i: int| 0 <= i < keys@.len() ==> (#[trigger] keys@[i].0@, keys@[i].1@) == kv[i],
                forall|i: int| 0 <= i < j ==> !key_before(kv[x as int], #[trigger] kv[out@[i] as int]),
            decreases out@.len() - j,
        {
            j = j + 1;
        }
        proof {
            lemma_insert_pos_at(out@, kv, x, j as int);
            assert(idx@.take(k + 1).drop_last() =~= idx@.take(k as int));
            assert(idx@.take(k + 1).last() == x);
        }
        let ghost before = out@;
        out.insert(j, x);
        proof {
            assert forall|i: int| 0 <= i < out@.len() implies #[trigger] out@[i] < keys@.len() by {
                if i < j {
                    assert(out@[i] == before[i]);
                } else if i > j {
                    assert(out@[i] == before[i - 1]);
                }
            }
        }
        k = k + 1;
    }
    assert(idx@.take(k as int) =~= idx@);
    out
}

/// The message that reports the number of search matches.
pub open spec fn match_message(n: nat, mode: SearchMode) -> Seq<char> {
    "匹配到 "@ + dec(n) + " 首 ("@ + search_mode_name(mode) + ")"@
}

/// The message that reports the sort order.
pub open spec fn sort_message(mode: SortMode) -> Seq<char> {
    "排序: "@ + sort_mode_name(mode)
}

/// `post` is `pre` after `apply_filter`.
pub open spec fn filter_applied(pre: App, post: App) -> bool {
    &&& post.filtered_indices@ == stable_sorted(
        filter_result(pre.songs@, pre.search_mode, pre.search_query@),
        song_keys(pre.songs@, pre.sort_mode)
    )
    &&& post.selected_index == 0
    &&& post.scroll_offset == 0
    &&& post.status_message@ == match_message(
        post.filtered_indices@.len(),
        pre.search_mode
    )
    &&& post == (App {
        filtered_indices: post.filtered_indices,
        selected_index: 0,
        scroll_offset: 0,
        status_message: post.status_message,
        ..pre
    })
}

impl App {
    /// Sort the listed songs in the current sort order (a stable sort, so
    /// songs with equal keys keep their order).
    pub fn sort_songs(&mut self)
        requires
            indices_in_range(old(self).filtered_indices@, old(self).songs@.len()),
        ensures
            final(self).filtered_indices@ == stable_sorted(
                old(self).filtered_indices@,
                song_keys(old(self).songs@, old(self).sort_mode),
            ),
            *final(self) == (App { filtered_indices: final(self).filtered_indices, ..*old(self) }),
            final(self).filtered_indices@.to_multiset() == old(self).filtered_indices@.to_multiset(),
            in_field_order(final(self).songs@, final(self).filtered_indices@, final(self).sort_mode),
    {
        proof {
            lemma_sort_by_field(self.songs@, self.filtered_indices@, self.sort_mode);
        }
        let keys = compute_keys(&self.songs, self.sort_mode);
        let ghost kv = song_keys(self.songs@, self.sort_mode);
        assert(kv.len() == keys@.len());
        let sorted = sort_indices(&self.filtered_indices, &keys, Ghost(kv));
        self.filtered_indices = sorted;
    }

    /// List the songs that match the search query (all of them for an empty
    /// query) in the current sort order, select the first one and report
    /// the number of matches.
    pub fn apply_filter(&mut self)
        ensures
            filter_applied(*old(self), *final(self)),
            in_field_order(final(self).songs@, final(self).filtered_indices@, final(self).sort_mode),
    {
        let ghost fr = filter_result(self.songs@, self.search_mode, self.search_query@);
        if self.search_query.as_str().is_empty() {
            assert(self.search_query@.len() == 0);
            self.filtered_indices = index_range(self.songs.len());
        } else {
            let q = str_to_chars(to_lowercase(self.search_query.as_str()).as_str());
            let mut found: Vec<usize> = Vec::new();
            let mut i: usize = 0;
            while i < self.songs.len()
                invariant
                    i <= self.songs@.len(),
                    found@ == matching(self.songs@, self.search_mode, q@, i as nat),
                decreases self.songs@.len() - i,
            {
                if song_matches_exec(&self.songs[i], self.search_mode, &q) {
                    found.push(i);
                }
                i = i + 1;
            }
            self.filtered_indices = found;
        }
        proof {
            assert(self.filtered_indices@ == fr);
            assert forall|i: int| 0 <= i < fr.len() implies #[trigger] fr[i] < self.songs@.len() by {
                lemma_filter_in_range(self.songs@, self.search_mode, self.search_query@);
            }
        }
        self.sort_songs();
        self.selected_index = 0;
        self.scroll_offset = 0;
        let mut msg: Vec<char> = Vec::new();
        push_str(&mut msg, "匹配到 ");
        let n = dec_chars(self.filtered_indices.len() as u64);
        push_all(&mut msg, &n);
        push_str(&mut msg, " 首 (");
        push_str(&mut msg, self.search_mode.as_str());
        push_str(&mut msg, ")");
        proof {
            lemma_stable_sorted_len(fr, song_keys(self.songs@, self.sort_mode), self.songs@.len());
        }
        self.status_message = string_from_chars(&msg);
    }
}

/// The first position of `x` in `s`, if any.
pub open spec fn first_position(s: Seq<usize>, x: usize) -> Option<int> {
    if exists|j: int| 0 <= j < s.len() && s[j] == x {
        Some(choose|j: int| 0 <= j < s.len() && s[j] == x && forall|i: int| 0 <= i < j ==> s[i] != x)
    } else {
        None
    }
}

pub proof fn lemma_first_position_of(s: Seq<usize>, x: usize, p: int)
    requires
        0 <= p < s.len(),
        s[p] == x,
        forall|i: int| 0 <= i < p ==> #[trigger] s[i] != x,
    ensures
        first_position(s, x) == Some(p),
{
    let q = choose|j: int| 0 <= j < s.len() && s[j] == x && forall|i: int| 0 <= i < j ==> s[i] != x;
    assert(0 <= q < s.len() && s[q] == x && forall|i: int| 0 <= i < q ==> s[i] != x);
    if q < p {
        assert(s[q] != x);
    }
    if q > p {
        assert(s[p] != x);
    }
}

/// `post` is `pre` after `cycle_sort` at `now_ms`.
pub open spec fn sort_cycled(pre: App, post: App, now_ms: u64) -> bool {
    &&& post.sort_mode == crate::app::mode::sort_mode_next(pre.sort_mode)
    &&& pre.search_query@.len() > 0 ==> {
        &&& post.filtered_indices@ == stable_sorted(
            filter_result(pre.songs@, pre.search_mode, pre.search_query@),
            song_keys(pre.songs@, post.sort_mode),
        )
        &&& post.selected_index == 0
        &&& post.scroll_offset == 0
        &&& post.status_message@ == match_message(
            post.filtered_indices@.len(),
            pre.search_mode,
        )
        &&& post == (App {
            sort_mode: post.sort_mode,
            filtered_indices: post.filtered_indices,
            selected_index: 0,
            scroll_offset: 0,
            status_message: post.status_message,
            ..pre
        })
    }
    &&& pre.search_query@.len() == 0 ==> {
        let sorted = stable_sorted(
            all_indices(pre.songs@.len()),
            song_keys(pre.songs@, post.sort_mode),
        );
        &&& post.filtered_indices@ == sorted
        &&& (pre.selected_index < pre.filtered_indices@.len() ==> {
            let song = pre.filtered_indices@[pre.selected_index as int];
            match first_position(sorted, song) {
                Some(p) => post.selected_index == p && post.scroll_offset
                    == scroll_for(
                    p as usize,
                    pre.scroll_offset,
                    pre.playlist_visible_height,
                ),
                None => post.selected_index == 0 && post.scroll_offset == 0,
            }
        })
        &&& (pre.selected_index >= pre.filtered_indices@.len() ==> {
            &&& post.selected_index == pre.selected_index
            &&& post.scroll_offset == pre.scroll_offset
        })
        &&& post.status_message@ == sort_message(post.sort_mode)
        &&& post.status_expiry == Some(
            if now_ms <= u64::MAX - crate::app::app::STATUS_DURATION_MS {
                (now_ms + crate::app::app::STATUS_DURATION_MS) as u64
            } else {
                u64::MAX
            },
        )
        &&& post == (App {
            sort_mode: post.sort_mode,
            filtered_indices: post.filtered_indices,
            selected_index: post.selected_index,
            scroll_offset: post.scroll_offset,
            status_message: post.status_message,
            status_expiry: post.status_expiry,
            ..pre
        })
    }
}

/// Law: four sort changes without a search come back to the first order,
/// and the list is then every song in that order.
pub proof fn lemma_sort_cycle_returns(a: App, b: App, c: App, d: App, e: App, t1: u64, t2: u64, t3: u64, t4: u64)
    requires
        a.search_query@.len() == 0,
        sort_cycled(a, b, t1),
        sort_cycled(b, c, t2),
        sort_cycled(c, d, t3),
        sort_cycled(d, e, t4),
    ensures
        e.sort_mode == a.sort_mode,
        e.songs == a.songs,
        e.filtered_indices@ == stable_sorted(all_indices(a.songs@.len()), song_keys(a.songs@, a.sort_mode)),
{
    crate::app::mode::lemma_sort_mode_cycle(a.sort_mode);
}

impl App {
    /// Switch to the next sort order and re-sort the list. With a search
    /// active the search is re-applied (selecting the first match);
    /// otherwise all songs are listed and the selected song stays selected
    /// (the first row is selected when it is no longer listed).
    pub fn cycle_sort(&mut self, now_ms: u64)
        ensures
            sort_cycled(*old(self), *final(self), now_ms),
    {
        self.sort_mode = self.sort_mode.next();
        let selected_song = if self.selected_index < self.filtered_indices.len() {
            Some(self.filtered_indices[self.selected_index])
        } else {
            None
        };
        if self.search_query.as_str().is_empty() {
            self.filtered_indices = index_range(self.songs.len());
        } else {
            self.apply_filter();
            return;
        }
        self.sort_songs();
        if let Some(song_idx) = selected_song {
            match self.list_position(song_idx) {
                Some(pos) => {
                    proof {
                        lemma_first_position_of(self.filtered_indices@, song_idx, pos as int);
                    }
                    self.selected_index = pos;
                    self.adjust_scroll();
                },
                None => {
                    self.selected_index = 0;
                    self.scroll_offset = 0;
                },
            }
        }
        let mut msg: Vec<char> = Vec::new();
        push_str(&mut msg, "排序: ");
        push_str(&mut msg, self.sort_mode.as_str());
        let text = string_from_chars(&msg);
        self.set_status(text, now_ms);
    }
}

proof fn lemma_key_order(a: SortKey, b: SortKey, c: SortKey)
    ensures
        key_order(a, b) == -key_order(b, a),
        key_order(a, b) <= 0 && key_order(b, c) <= 0 ==> key_order(a, c) <= 0,
        key_order(a, b) < 0 && key_order(b, c) <= 0 ==> key_order(a, c) < 0,
        key_order(a, b) <= 0 && key_order(b, c) < 0 ==> key_order(a, c) < 0,
{
    lemma_text_order_antisym(a.0, b.0);
    lemma_text_order_antisym(b.0, c.0);
    lemma_text_order_antisym(a.0, c.0);
    lemma_text_order_antisym(a.1, b.1);
    lemma_text_order_antisym(b.1, c.1);
    lemma_text_order_antisym(a.1, c.1);
    lemma_text_order_trans(a.0, b.0, c.0);
    lemma_text_order_trans(a.1, b.1, c.1);
}

/// No index of `r` sorts strictly before an earlier one.
pub open spec fn sorted_by(r: Seq<usize>, keys: Seq<SortKey>) -> bool {
    forall|i: int, j: int|
        #![trigger r[i], r[j]]
        0 <= i < j < r.len() ==> !key_before(keys[r[j] as int], keys[r[i] as int])
}

proof fn lemma_insert_pos_props(r: Seq<usize>, keys: Seq<SortKey>, x: usize)
    ensures
        0 <= insert_pos(r, keys, x) <= r.len(),
        forall|i: int|
            0 <= i < insert_pos(r, keys, x) ==> !key_before(keys[x as int], #[trigger] keys[r[i] as int]),
        insert_pos(r, keys, x) < r.len() ==> key_before(
            keys[x as int],
            keys[r[insert_pos(r, keys, x)] as int],
        ),
    decreases r.len(),
{
    if r.len() > 0 && !key_before(keys[x as int], keys[r[0] as int]) {
        let t = r.drop_first();
        lemma_insert_pos_props(t, keys, x);
        assert forall|i: int| 0 <= i < insert_pos(r, keys, x) implies !key_before(
            keys[x as int],
            #[trigger] keys[r[i] as int],
        ) by {
            if i > 0 {
                assert(r[i] == t[i - 1]);
            }
        }
    }
}

proof fn lemma_insert_keeps_sorted(r: Seq<usize>, keys: Seq<SortKey>, x: usize)
    requires
        sorted_by(r, keys),
    ensures
        sorted_by(r.insert(insert_pos(r, keys, x), x), keys),
{
    lemma_insert_pos_props(r, keys, x);
    let p = insert_pos(r, keys, x);
    let out = r.insert(p, x);
    assert forall|i: int, j: int| 0 <= i < j < out.len() implies !key_before(
        keys[out[j] as int],
        keys[out[i] as int],
    ) by {
        let kx = keys[x as int];
        if i < p && j < p {
            assert(out[i] == r[i] && out[j] == r[j]);
        } else if i < p && j == p {
            assert(out[i] == r[i] && out[j] == x);
            assert(!key_before(kx, keys[r[i] as int]));
            lemma_key_order(kx, keys[r[i] as int], kx);
        } else if i < p && j > p {
            assert(out[i] == r[i] && out[j] == r[j - 1]);
        } else if i == p {
            assert(out[i] == x && out[j] == r[j - 1]);
            assert(key_before(kx, keys[r[p] as int]));
            if j - 1 > p {
                assert(!key_before(keys[r[j - 1] as int], keys[r[p] as int]));
            }
            lemma_key_order(keys[r[j - 1] as int], keys[r[p] as int], kx);
            lemma_key_order(kx, keys[r[p] as int], keys[r[j - 1] as int]);
            lemma_key_order(keys[r[j - 1] as int], kx, kx);
        } else {
            assert(out[i] == r[i - 1] && out[j] == r[j - 1]);
        }
    }
}

/// Law: sorting puts the songs in key order, and lists the same songs
/// (each as many times) as before.
pub proof fn lemma_stable_sorted_sorted(s: Seq<usize>, keys: Seq<SortKey>)
    ensures
        sorted_by(stable_sorted(s, keys), keys),
        stable_sorted(s, keys).to_multiset() == s.to_multiset(),
    decreases s.len(),
{
    broadcast use vstd::seq_lib::to_multiset_insert, vstd::seq_lib::to_multiset_build;

    if s.len() == 0 {
        assert(sorted_by(s, keys));
    } else {
        lemma_stable_sorted_sorted(s.drop_last(), keys);
        let r = stable_sorted(s.drop_last(), keys);
        lemma_insert_keeps_sorted(r, keys, s.last());
        lemma_insert_pos_bound(r, keys, s.last());
        assert(s.drop_last().push(s.last()) =~= s);
    }
}

/// Songs of equal keys in `r` come in the order they have in `s`.
pub open spec fn order_kept(s: Seq<usize>, r: Seq<usize>, keys: Seq<SortKey>) -> bool {
    forall|i: int, j: int|
        #![trigger r[i], r[j]]
        0 <= i < j < r.len() && key_order(keys[r[i] as int], keys[r[j] as int]) == 0 ==> exists|
            a: int,
            b: int,
        | 0 <= a < b < s.len() && s[a] == r[i] && s[b] == r[j]
}

/// Law: the sort is stable: songs whose keys are equal keep the order they
/// had before.
pub proof fn lemma_stable_sorted_stable(s: Seq<usize>, keys: Seq<SortKey>)
    ensures
        order_kept(s, stable_sorted(s, keys), keys),
    decreases s.len(),
{
    broadcast use vstd::seq_lib::to_multiset_contains;

    if s.len() > 0 {
        let s1 = s.drop_last();
        let x = s.last();
        lemma_stable_sorted_stable(s1, keys);
        lemma_stable_sorted_sorted(s1, keys);
        let r = stable_sorted(s1, keys);
        lemma_insert_pos_props(r, keys, x);
        let p = insert_pos(r, keys, x);
        let out = r.insert(p, x);
        assert(out == stable_sorted(s, keys));
        let kx = keys[x as int];
        assert forall|i: int, j: int|
            0 <= i < j < out.len() && key_order(keys[out[i] as int], keys[out[j] as int])
                == 0 implies exists|a: int, b: int|
            0 <= a < b < s.len() && s[a] == out[i] && s[b] == out[j] by {
            if j < p {
                assert(out[i] == r[i] && out[j] == r[j]);
                let (a, b) = choose|a: int, b: int|
                    0 <= a < b < s1.len() && s1[a] == r[i] && s1[b] == r[j];
                assert(s[a] == s1[a] && s[b] == s1[b]);
            } else if i < p && j == p {
                assert(out[i] == r[i] && out[j] == x);
                assert(r.contains(r[i]));
                assert(r.to_multiset().count(r[i]) > 0);
                assert(s1.contains(r[i]));
                let a = choose|a: int| 0 <= a < s1.len() && s1[a] == r[i];
                assert(s[a] == s1[a]);
                assert(s[s.len() - 1] == x);
            } else if i < p && j > p {
                assert(out[i] == r[i] && out[j] == r[j - 1]);
                let (a, b) = choose|a: int, b: int|
                    0 <= a < b < s1.len() && s1[a] == r[i] && s1[b] == r[j - 1];
                assert(s[a] == s1[a] && s[b] == s1[b]);
            } else if i == p {
                assert(out[i] == x && out[j] == r[j - 1]);
                assert(key_before(kx, keys[r[p] as int]));
                if j - 1 > p {
                    assert(!key_before(keys[r[j - 1] as int], keys[r[p] as int]));
                }
                lemma_key_order(kx, keys[r[p] as int], keys[r[j - 1] as int]);
                lemma_key_order(keys[r[j - 1] as int], keys[r[p] as int], kx);
                assert(false);
            } else {
                assert(out[i] == r[i - 1] && out[j] == r[j - 1]);
                let (a, b) = choose|a: int, b: int|
                    0 <= a < b < s1.len() && s1[a] == r[i - 1] && s1[b] == r[j - 1];
                assert(s[a] == s1[a] && s[b] == s1[b]);
            }
        }
    }
}

proof fn lemma_matching_in_range(songs: Seq<Song>, mode: SearchMode, q: Seq<char>, n: nat)
    requires
        n <= songs.len(),
    ensures
        indices_in_range(matching(songs, mode, q, n), songs.len()),
    decreases n,
{
    if n > 0 {
        lemma_matching_in_range(songs, mode, q, (n - 1) as nat);
    }
}

/// Law: a search lists only songs of the library.
pub proof fn lemma_filter_in_range(songs: Seq<Song>, mode: SearchMode, query: Seq<char>)
    ensures
        indices_in_range(filter_result(songs, mode, query), songs.len()),
{
    if query.len() > 0 {
        lemma_matching_in_range(songs, mode, lowercase(query), songs.len());
    }
}

proof fn lemma_matching_members(songs: Seq<Song>, mode: SearchMode, q: Seq<char>, n: nat)
    requires
        n <= songs.len(),
        n <= usize::MAX + 1,
    ensures
        forall|j: int|
            0 <= j < matching(songs, mode, q, n).len() ==> #[trigger] matching(songs, mode, q, n)[j] < n,
        forall|a: int, b: int|
            0 <= a < b < matching(songs, mode, q, n).len() ==> #[trigger] matching(
                songs,
                mode,
                q,
                n,
            )[a] < #[trigger] matching(songs, mode, q, n)[b],
        forall|i: usize|
            #![trigger matching(songs, mode, q, n).contains(i)]
            matching(songs, mode, q, n).contains(i) <==> (i < n && song_matches(
                songs[i as int],
                mode,
                q,
            )),
    decreases n,
{
    if n > 0 {
        let n1 = (n - 1) as nat;
        lemma_matching_members(songs, mode, q, n1);
        let prev = matching(songs, mode, q, n1);
        let cur = matching(songs, mode, q, n);
        assert forall|i: usize| cur.contains(i) <==> (i < n && song_matches(songs[i as int], mode, q)) by {
            if cur.contains(i) {
                let j = choose|j: int| 0 <= j < cur.len() && cur[j] == i;
                if j < prev.len() {
                    assert(cur[j] == prev[j]);
                    assert(prev.contains(i));
                }
            }
            if i < n && song_matches(songs[i as int], mode, q) {
                if i < n1 {
                    assert(prev.contains(i));
                    let j = choose|j: int| 0 <= j < prev.len() && prev[j] == i;
                    assert(cur[j] == prev[j]);
                } else {
                    assert(cur[cur.len() - 1] == i);
                }
            }
        }
    }
}

/// Law: a search lists a song exactly when the searched field holds the
/// query, ignoring case (every song for an empty query), each song once,
/// in library order.
pub proof fn lemma_filter_membership(songs: Seq<Song>, mode: SearchMode, query: Seq<char>)
    requires
        songs.len() <= usize::MAX,
    ensures
        forall|i: usize|
            #![trigger filter_result(songs, mode, query).contains(i)]
            filter_result(songs, mode, query).contains(i) <==> (i < songs.len() && (query.len() == 0
                || song_matches(songs[i as int], mode, lowercase(query)))),
        forall|a: int, b: int|
            0 <= a < b < filter_result(songs, mode, query).len() ==> #[trigger] filter_result(
                songs,
                mode,
                query,
            )[a] < #[trigger] filter_result(songs, mode, query)[b],
{
    if query.len() > 0 {
        lemma_matching_members(songs, mode, lowercase(query), songs.len());
    } else {
        let r = all_indices(songs.len());
        assert forall|i: usize| r.contains(i) <==> i < songs.len() by {
            if i < songs.len() {
                assert(r[i as int] == i);
            }
        }
    }
}


/// `a` then `a2` comes no later than `b` then `b2`: `a` sorts before `b`,
/// or they are equal and `a2` does not sort after `b2`.
pub open spec fn pair_no_later(a: Seq<char>, a2: Seq<char>, b: Seq<char>, b2: Seq<char>) -> bool {
    text_order(a, b) < 0 || (a == b && text_order(a2, b2) <= 0)
}

/// `r` lists songs in the order of the field that `mode` names, ignoring
/// case: by title (ties by artist), by artist, by album or by folder (ties
/// by title).
pub open spec fn in_field_order(songs: Seq<Song>, r: Seq<usize>, mode: SortMode) -> bool {
    forall|i: int, j: int|
        #![trigger r[i], r[j]]
        0 <= i < j < r.len() ==> {
            let a = songs[r[i] as int];
            let b = songs[r[j] as int];
            match mode {
                SortMode::Title => pair_no_later(
                    lowercase(a.title@), lowercase(a.artist@),
                    lowercase(b.title@), lowercase(b.artist@),
                ),
                SortMode::Artist => pair_no_later(
                    lowercase(a.artist@), lowercase(a.title@),
                    lowercase(b.artist@), lowercase(b.title@),
                ),
                SortMode::Album => pair_no_later(
                    lowercase(a.album@), lowercase(a.title@),
                    lowercase(b.album@), lowercase(b.title@),
                ),
                SortMode::Folder => pair_no_later(
                    lowercase(parent_or_empty(a.path@)), lowercase(a.title@),
                    lowercase(parent_or_empty(b.path@)), lowercase(b.title@),
                ),
            }
        }
}

/// Law: sorting orders the songs by the field that the sort order names,
/// ignoring case: by title (ties by artist), by artist, by album or by
/// folder (ties by title); and it lists the same songs as before.
pub proof fn lemma_sort_by_field(songs: Seq<Song>, s: Seq<usize>, mode: SortMode)
    requires
        indices_in_range(s, songs.len()),
    ensures
        stable_sorted(s, song_keys(songs, mode)).to_multiset() == s.to_multiset(),
        in_field_order(songs, stable_sorted(s, song_keys(songs, mode)), mode),
{
    let keys = song_keys(songs, mode);
    let r = stable_sorted(s, keys);
    lemma_stable_sorted_sorted(s, keys);
    lemma_stable_sorted_len(s, keys, songs.len());
    assert forall|i: int, j: int|
        #![trigger r[i], r[j]]
        0 <= i < j < r.len() implies {
            let a = songs[r[i] as int];
            let b = songs[r[j] as int];
            match mode {
                SortMode::Title => pair_no_later(
                    lowercase(a.title@), lowercase(a.artist@),
                    lowercase(b.title@), lowercase(b.artist@),
                ),
                SortMode::Artist => pair_no_later(
                    lowercase(a.artist@), lowercase(a.title@),
                    lowercase(b.artist@), lowercase(b.title@),
                ),
                SortMode::Album => pair_no_later(
                    lowercase(a.album@), lowercase(a.title@),
                    lowercase(b.album@), lowercase(b.title@),
                ),
                SortMode::Folder => pair_no_later(
                    lowercase(parent_or_empty(a.path@)), lowercase(a.title@),
                    lowercase(parent_or_empty(b.path@)), lowercase(b.title@),
                ),
            }
        } by {
        let ka = keys[r[i] as int];
        let kb = keys[r[j] as int];
        assert(r[i] < songs.len() && r[j] < songs.len());
        assert(ka == sort_key(songs[r[i] as int], mode));
        assert(kb == sort_key(songs[r[j] as int], mode));
        assert(!key_before(kb, ka));
        lemma_key_order(ka, kb, ka);
        lemma_text_order_antisym(ka.0, kb.0);
    }
}


/// Law: after a search, song `i` is listed exactly when it is a song of the
/// library and, for a non-empty query, the searched field holds the query,
/// ignoring case: the title or the artist, the artist, the album, or the
/// file name. Whatever else the song holds plays no part.
pub proof fn lemma_search_lists_by_field(pre: App, post: App)
    requires
        filter_applied(pre, post),
        pre.songs@.len() <= usize::MAX,
    ensures
        forall|i: usize|
            #![trigger post.filtered_indices@.contains(i)]
            post.filtered_indices@.contains(i) <==> (i < pre.songs@.len() && (
                pre.search_query@.len() == 0 || match pre.search_mode {
                SearchMode::TitleArtist => has_substring(
                    lowercase(pre.songs@[i as int].title@),
                    lowercase(pre.search_query@),
                ) || has_substring(
                    lowercase(pre.songs@[i as int].artist@),
                    lowercase(pre.search_query@),
                ),
                SearchMode::Artist => has_substring(
                    lowercase(pre.songs@[i as int].artist@),
                    lowercase(pre.search_query@),
                ),
                SearchMode::Album => has_substring(
                    lowercase(pre.songs@[i as int].album@),
                    lowercase(pre.search_query@),
                ),
                SearchMode::Filename => match path_file_name(pre.songs@[i as int].path@) {
                    Some(n) => has_substring(lowercase(n), lowercase(pre.search_query@)),
                    None => false,
                },
            })),
{
    broadcast use vstd::seq_lib::to_multiset_contains;

    let fr = filter_result(pre.songs@, pre.search_mode, pre.search_query@);
    lemma_filter_membership(pre.songs@, pre.search_mode, pre.search_query@);
    lemma_filter_in_range(pre.songs@, pre.search_mode, pre.search_query@);
    lemma_sort_by_field(pre.songs@, fr, pre.sort_mode);
    assert forall|i: usize| post.filtered_indices@.contains(i) <==> (i < pre.songs@.len() && (
        pre.search_query@.len() == 0 || song_matches(
            pre.songs@[i as int],
            pre.search_mode,
            lowercase(pre.search_query@),
        ))) by {
        assert(post.filtered_indices@.to_multiset().count(i) == fr.to_multiset().count(i));
        assert(fr.contains(i) <==> (i < pre.songs@.len() && (pre.search_query@.len() == 0
            || song_matches(pre.songs@[i as int], pre.search_mode, lowercase(pre.search_query@)))));
    }
}

} // verus!
