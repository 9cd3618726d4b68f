//! Scanning the music folder: which files need their tags read, how the
//! song list is assembled from the cache and the new reads, and how the
//! playlist takes in the result.
use crate::app::app::{all_indices, found_message, index_range, scroll_for, App, CachedFolder, Song, SongsCache};
use crate::config::Config;
use crate::app::library::{first_position, song_keys, stable_sorted};
use crate::text::{dec, dec_chars, lowercase, push_all, push_str, str_eq, string_from_chars, to_lowercase};
use vstd::string::StringExecFns;
use vstd::prelude::*;

verus! {

/// A copy of a song.
pub fn copy_song(s: &Song) -> (r: Song)
    ensures
        r == *s,
{
    Song {
        path: s.path.clone(),
        title: s.title.clone(),
        artist: s.artist.clone(),
        album: s.album.clone(),
        duration: s.duration,
        mtime: s.mtime,
    }
}

/// The last song of `songs` with the path `p` (the one a map built from the
/// list in order keeps).
pub open spec fn last_with_path(songs: Seq<Song>, p: Seq<char>) -> Option<Song>
    decreases songs.len(),
{
    if songs.len() == 0 {
        None
    } else if songs.last().path@ == p {
        Some(songs.last())
    } else {
        last_with_path(songs.drop_last(), p)
    }
}

fn find_last_with_path(songs: &Vec<Song>, p: &String) -> (r: Option<usize>)
    ensures
        match r {
            Some(i) => i < songs@.len() && last_with_path(songs@, p@) == Some(songs@[i as int]),
            None => last_with_path(songs@, p@) is None,
        },
{
    let mut i = songs.len();
    assert(songs@.take(i as int) =~= songs@);
    while i > 0
        invariant
            i <= songs@.len(),
            last_with_path(songs@.take(i as int), p@) == last_with_path(songs@, p@),
        decreases i,
    {
        let ghost t = songs@.take(i as int);
        assert(t.drop_last() =~= songs@.take(i - 1));
        assert(t.last() == songs@[i - 1]);
        if songs[i - 1].path == *p {
            return Some(i - 1);
        }
        i = i - 1;
    }
    assert(songs@.take(0) =~= Seq::<Song>::empty());
    None
}

/// How the files found split: unchanged ones (cached with the same
/// modification time), files whose cached entry is older, and new files.
pub struct ScanPlan {
    pub cached_count: usize,
    pub to_parse_new: Vec<String>,
    pub to_parse_updated: Vec<String>,
}

pub open spec fn strings_view(v: Seq<String>) -> Seq<Seq<char>> {
    v.map_values(|s: String| s@)
}

/// The plan for the first `n` files found (each a path and a modification time).
pub open spec fn plan_spec(entries: Seq<(String, u64)>, cached: Seq<Song>, n: nat) -> (
    nat,
    Seq<Seq<char>>,
    Seq<Seq<char>>,
)
    decreases n,
{
    if n == 0 {
        (0, Seq::empty(), Seq::empty())
    } else {
        let (c, fresh, stale) = plan_spec(entries, cached, (n - 1) as nat);
        let (p, mtime) = entries[n - 1];
        match last_with_path(cached, p@) {
            Some(song) => if song.mtime == mtime {
                ((c + 1) as nat, fresh, stale)
            } else {
                (c, fresh, stale.push(p@))
            },
            None => (c, fresh.push(p@), stale),
        }
    }
}

/// Law: a scan accounts for every file found exactly once: it is covered by
/// the cache, or it is new, or it changed.
pub proof fn lemma_plan_accounts_for_each_file(entries: Seq<(String, u64)>, cached: Seq<Song>, n: nat)
    ensures
        plan_spec(entries, cached, n).0 + plan_spec(entries, cached, n).1.len() + plan_spec(
            entries,
            cached,
            n,
        ).2.len() == n,
    decreases n,
{
    if n > 0 {
        lemma_plan_accounts_for_each_file(entries, cached, (n - 1) as nat);
    }
}

proof fn lemma_plan_grows(entries: Seq<(String, u64)>, cached: Seq<Song>, n: nat, m: nat)
    requires
        n <= m,
    ensures
        plan_spec(entries, cached, m).2.len() >= plan_spec(entries, cached, n).2.len(),
        plan_spec(entries, cached, m).2.take(plan_spec(entries, cached, n).2.len() as int)
            == plan_spec(entries, cached, n).2,
    decreases m,
{
    if n < m {
        lemma_plan_grows(entries, cached, n, (m - 1) as nat);
        let a = plan_spec(entries, cached, n).2;
        let b = plan_spec(entries, cached, (m - 1) as nat).2;
        let c = plan_spec(entries, cached, m).2;
        assert(c.take(a.len() as int) =~= b.take(a.len() as int));
    } else {
        let a = plan_spec(entries, cached, n).2;
        assert(a.take(a.len() as int) =~= a);
    }
}

proof fn lemma_assembled_grows(
    entries: Seq<(String, u64)>,
    cached: Seq<Song>,
    parsed: Seq<Song>,
    n: nat,
    m: nat,
)
    requires
        n <= m,
    ensures
        assembled(entries, cached, parsed, m).len() >= assembled(entries, cached, parsed, n).len(),
        assembled(entries, cached, parsed, m).take(
            assembled(entries, cached, parsed, n).len() as int,
        ) == assembled(entries, cached, parsed, n),
    decreases m,
{
    if n < m {
        lemma_assembled_grows(entries, cached, parsed, n, (m - 1) as nat);
        let a = assembled(entries, cached, parsed, n);
        let b = assembled(entries, cached, parsed, (m - 1) as nat);
        let c = assembled(entries, cached, parsed, m);
        assert(c.take(a.len() as int) =~= b.take(a.len() as int));
    } else {
        let a = assembled(entries, cached, parsed, n);
        assert(a.take(a.len() as int) =~= a);
    }
}

/// Law: a file whose cached entry is older than the file is read again:
/// the scan plan lists it among the changed files, and when it was read,
/// the song list holds the freshly read song in the file's place (the song
/// the list places for the `i`-th file found), not the cached one.
pub proof fn lemma_changed_file_reread(
    entries: Seq<(String, u64)>,
    cached: Seq<Song>,
    parsed: Seq<Song>,
    i: int,
)
    requires
        0 <= i < entries.len(),
        last_with_path(cached, entries[i].0@) matches Some(c) && c.mtime != entries[i].1,
    ensures
        plan_spec(entries, cached, entries.len()).2.contains(entries[i].0@),
        last_with_path(parsed, entries[i].0@) matches Some(fresh) ==> {
            &&& assembled(entries, cached, parsed, (i + 1) as nat) == assembled(
                entries,
                cached,
                parsed,
                i as nat,
            ).push(fresh)
            &&& assembled(entries, cached, parsed, entries.len()).contains(fresh)
        },
{
    let n = (i + 1) as nat;
    lemma_plan_grows(entries, cached, n, entries.len());
    let a = plan_spec(entries, cached, n).2;
    let full = plan_spec(entries, cached, entries.len()).2;
    assert(a.last() == entries[i].0@);
    assert(full[a.len() - 1] == a[a.len() - 1]);
    if let Some(fresh) = last_with_path(parsed, entries[i].0@) {
        lemma_assembled_grows(entries, cached, parsed, n, entries.len());
        let s1 = assembled(entries, cached, parsed, n);
        let sf = assembled(entries, cached, parsed, entries.len());
        assert(s1.last() == fresh);
        assert(sf[s1.len() - 1] == s1[s1.len() - 1]);
    }
}

/// Sort the files found into those the cache covers and those whose tags
/// must be read (new files, and files changed since they were cached).
pub fn plan_scan(entries: &Vec<(String, u64)>, cached: &Vec<Song>) -> (plan: ScanPlan)
    ensures
        (plan.cached_count as nat, strings_view(plan.to_parse_new@), strings_view(
            plan.to_parse_updated@,
        )) == plan_spec(entries@, cached@, entries@.len()),
{
    let mut cached_count: usize = 0;
    let mut fresh: Vec<String> = Vec::new();
    let mut stale: Vec<String> = Vec::new();
    let mut i: usize = 0;
    assert(strings_view(fresh@) =~= Seq::<Seq<char>>::empty());
    assert(strings_view(stale@) =~= Seq::<Seq<char>>::empty());
    while i < entries.len()
        invariant
            i <= entries@.len(),
            cached_count <= i,
            (cached_count as nat, strings_view(fresh@), strings_view(stale@)) == plan_spec(
                entries@,
                cached@,
                i as nat,
            ),
        decreases entries@.len() - i,
    {
        let path = &entries[i].0;
        let mtime = entries[i].1;
        match find_last_with_path(cached, path) {
            Some(k) => {
                if cached[k].mtime == mtime {
                    cached_count = cached_count + 1;
                } else {
                    stale.push(path.clone());
                }
            },
            None => {
                fresh.push(path.clone());
            },
        }
        proof {
            let (c, f, s) = plan_spec(entries@, cached@, i as nat);
            assert(strings_view(fresh@) == plan_spec(entries@, cached@, (i + 1) as nat).1) by {
                assert(strings_view(fresh@) =~= plan_spec(entries@, cached@, (i + 1) as nat).1);
            }
            assert(strings_view(stale@) == plan_spec(entries@, cached@, (i + 1) as nat).2) by {
                assert(strings_view(stale@) =~= plan_spec(entries@, cached@, (i + 1) as nat).2);
            }
        }
        i = i + 1;
    }
    ScanPlan { cached_count, to_parse_new: fresh, to_parse_updated: stale }
}

/// The songs of the first `n` files found, in the order found: the cached
/// entry when its modification time is the file's, else the song read from
/// the file, else (the file could not be read) its older cached entry, and
/// nothing for a new file that could not be read.
pub open spec fn assembled(entries: Seq<(String, u64)>, cached: Seq<Song>, parsed: Seq<Song>, n: nat) -> Seq<Song>
    decreases n,
{
    if n == 0 {
        Seq::empty()
    } else {
        let prev = assembled(entries, cached, parsed, (n - 1) as nat);
        let (p, mtime) = entries[n - 1];
        match last_with_path(cached, p@) {
            Some(c) => if c.mtime == mtime {
                prev.push(c)
            } else {
                match last_with_path(parsed, p@) {
                    Some(s) => prev.push(s),
                    None => prev.push(c),
                }
            },
            None => match last_with_path(parsed, p@) {
                Some(s) => prev.push(s),
                None => prev,
            },
        }
    }
}

/// The song list after a scan: for each file found, in order, its cached
/// entry when unchanged, else its freshly read song (`parsed` holds the
/// songs read, new files first, then changed ones).
pub fn assemble_songs(entries: &Vec<(String, u64)>, cached: &Vec<Song>, parsed: &Vec<Song>) -> (songs: Vec<Song>)
    ensures
        songs@ == assembled(entries@, cached@, parsed@, entries@.len()),
{
    let mut songs: Vec<Song> = Vec::new();
    let mut i: usize = 0;
    while i < entries.len()
        invariant
            i <= entries@.len(),
            songs@ == assembled(entries@, cached@, parsed@, i as nat),
        decreases entries@.len() - i,
    {
        let path = &entries[i].0;
        let mtime = entries[i].1;
        match find_last_with_path(cached, path) {
            Some(k) => {
                if cached[k].mtime == mtime {
                    songs.push(copy_song(&cached[k]));
                } else {
                    match find_last_with_path(parsed, path) {
                        Some(j) => {
                            songs.push(copy_song(&parsed[j]));
                        },
                        None => {
                            songs.push(copy_song(&cached[k]));
                        },
                    }
                }
            },
            None => match find_last_with_path(parsed, path) {
                Some(k) => {
                    songs.push(copy_song(&parsed[k]));
                },
                None => {},
            },
        }
        i = i + 1;
    }
    songs
}

/// The first song of `songs` with the path `p`.
pub open spec fn first_with_path(songs: Seq<Song>, p: Seq<char>) -> Option<int> {
    if exists|j: int| 0 <= j < songs.len() && songs[j].path@ == p {
        Some(
            choose|j: int|
                0 <= j < songs.len() && songs[j].path@ == p && forall|i: int|
                    0 <= i < j ==> songs[i].path@ != p,
        )
    } else {
        None
    }
}

pub(crate) fn find_first_with_path(songs: &Vec<Song>, p: &String) -> (r: Option<usize>)
    ensures
        match r {
            Some(i) => first_with_path(songs@, p@) == Some(i as int),
            None => first_with_path(songs@, p@) is None,
        },
{
    let mut i: usize = 0;
    while i < songs.len()
        invariant
            i <= songs@.len(),
            forall|j: int| 0 <= j < i ==> #[trigger] songs@[j].path@ != p@,
        decreases songs@.len() - i,
    {
        if songs[i].path == *p {
            proof {
                let q = choose|j: int|
                    0 <= j < songs@.len() && songs@[j].path@ == p@ && forall|k: int|
                        0 <= k < j ==> songs@[k].path@ != p@;
                if q < i {
                    assert(songs@[q].path@ != p@);
                }
                if q > i {
                    assert(songs@[i as int].path@ != p@);
                }
            }
            return Some(i);
        }
        i = i + 1;
    }
    None
}

/// The path of the song at `idx`, when there is one.
pub open spec fn path_at(songs: Seq<Song>, idx: Option<usize>) -> Option<Seq<char>> {
    match idx {
        Some(i) => if i < songs.len() {
            Some(songs[i as int].path@)
        } else {
            None
        },
        None => None,
    }
}

/// The message that reports progress of a scan.
pub open spec fn progress_message(found: nat) -> Seq<char> {
    "正在扫描媒体库... 已发现 "@ + dec(found) + " 首"@
}

/// The message that reports the end of a scan.
pub open spec fn done_message(total: nat, cached: nat, new: nat, updated: nat) -> Seq<char> {
    if new > 0 || updated > 0 {
        "扫描完成: "@ + dec(total) + " 首 (缓存: "@ + dec(cached) + " | 新增: "@ + dec(new)
            + " | 更新: "@ + dec(updated) + ")"@
    } else {
        "扫描完成: "@ + dec(total) + " 首歌曲"@
    }
}

impl App {
    /// Show the songs of a saved cache: all of them, in the current sort
    /// order, with the number found in the status line.
    pub fn restore_songs(&mut self, songs: Vec<Song>)
        ensures
            final(self).songs == songs,
            final(self).filtered_indices@ == stable_sorted(
                all_indices(songs@.len()),
                song_keys(songs@, old(self).sort_mode),
            ),
            final(self).status_message@ == found_message(songs@.len()),
            *final(self) == (App {
                songs: final(self).songs,
                filtered_indices: final(self).filtered_indices,
                status_message: final(self).status_message,
                ..*old(self)
            }),
    {
        self.songs = songs;
        self.filtered_indices = index_range(self.songs.len());
        self.sort_songs();
        let mut msg: Vec<char> = Vec::new();
        push_str(&mut msg, "发现 ");
        let n = dec_chars(self.songs.len() as u64);
        push_all(&mut msg, &n);
        push_str(&mut msg, " 首歌曲");
        self.status_message = string_from_chars(&msg);
    }

    /// Start a scan unless one is running. Returns whether it started.
    pub fn begin_scan(&mut self) -> (started: bool)
        ensures
            started == !old(self).scanning,
            !started ==> *final(self) == *old(self),
            started ==> {
                &&& final(self).scanning
                &&& final(self).status_message@ == "正在扫描媒体库..."@
                &&& final(self).status_expiry is None
                &&& *final(self) == (App {
                    scanning: true,
                    status_message: final(self).status_message,
                    status_expiry: None,
                    ..*old(self)
                })
            },
    {
        if self.scanning {
            return false;
        }
        self.scanning = true;
        self.status_message = String::from_str("正在扫描媒体库...");
        self.status_expiry = None;
        true
    }

    /// Report that a running scan has found `found` files.
    pub fn scan_progress(&mut self, found: usize)
        ensures
            !old(self).scanning ==> *final(self) == *old(self),
            old(self).scanning ==> {
                &&& final(self).status_message@ == progress_message(found as nat)
                &&& *final(self) == (App {
                    status_message: final(self).status_message,
                    status_expiry: None,
                    ..*old(self)
                })
            },
    {
        if !self.scanning {
            return;
        }
        let mut msg: Vec<char> = Vec::new();
        push_str(&mut msg, "正在扫描媒体库... 已发现 ");
        let n = dec_chars(found as u64);
        push_all(&mut msg, &n);
        push_str(&mut msg, " 首");
        self.status_message = string_from_chars(&msg);
        self.status_expiry = None;
    }

    /// Take in the result of a scan: the new song list, all listed in the
    /// current sort order. The playing song and the selected song are found
    /// again by path (the selection goes to the first row when its song is
    /// gone), and the scan's counts go to the status line.
    pub fn scan_done(&mut self, songs: Vec<Song>, cached_count: usize, new_count: usize, updated_count: usize)
        ensures
            !old(self).scanning ==> *final(self) == *old(self),
            old(self).scanning ==> {
                let playing = path_at(old(self).songs@, old(self).current_song_index);
                let selected = if old(self).selected_index < old(self).filtered_indices@.len() {
                    path_at(
                        old(self).songs@,
                        Some(old(self).filtered_indices@[old(self).selected_index as int]),
                    )
                } else {
                    None
                };
                let list = stable_sorted(
                    all_indices(songs@.len()),
                    song_keys(songs@, old(self).sort_mode),
                );
                let found_sel: Option<int> = match selected {
                    Some(p) => match first_with_path(songs@, p) {
                        Some(si) => first_position(list, si as usize),
                        None => None,
                    },
                    None => None,
                };
                let sel1: usize = match found_sel {
                    Some(lp) => lp as usize,
                    None => old(self).selected_index,
                };
                let off1: usize = match found_sel {
                    Some(lp) => scroll_for(
                        lp as usize,
                        old(self).scroll_offset,
                        old(self).playlist_visible_height,
                    ) as usize,
                    None => old(self).scroll_offset,
                };
                &&& final(self).songs == songs
                &&& final(self).filtered_indices@ == list
                &&& final(self).current_song_index == match playing {
                    Some(p) => match first_with_path(songs@, p) {
                        Some(i) => Some(i as usize),
                        None => None,
                    },
                    None => old(self).current_song_index,
                }
                &&& (sel1 < list.len() ==> final(self).selected_index == sel1
                    && final(self).scroll_offset == off1)
                &&& (sel1 >= list.len() ==> final(self).selected_index == 0
                    && final(self).scroll_offset == 0)
                &&& !final(self).scanning
                &&& final(self).status_message@ == done_message(
                    songs@.len(),
                    cached_count as nat,
                    new_count as nat,
                    updated_count as nat,
                )
                &&& *final(self) == (App {
                    songs: final(self).songs,
                    filtered_indices: final(self).filtered_indices,
                    current_song_index: final(self).current_song_index,
                    selected_index: final(self).selected_index,
                    scroll_offset: final(self).scroll_offset,
                    scanning: false,
                    status_message: final(self).status_message,
                    ..*old(self)
                })
            },
    {
        if !self.scanning {
            return;
        }
        let playing_path: Option<String> = match self.current_song_index {
            Some(idx) => if idx < self.songs.len() {
                Some(self.songs[idx].path.clone())
            } else {
                None
            },
            None => None,
        };
        let selected_path: Option<String> = if self.selected_index < self.filtered_indices.len() {
            let idx = self.filtered_indices[self.selected_index];
            if idx < self.songs.len() {
                Some(self.songs[idx].path.clone())
            } else {
                None
            }
        } else {
            None
        };
        self.songs = songs;
        self.filtered_indices = index_range(self.songs.len());
        self.sort_songs();
        if let Some(path) = &playing_path {
            self.current_song_index = find_first_with_path(&self.songs, path);
        }
        if let Some(path) = &selected_path {
            if let Some(song_idx) = find_first_with_path(&self.songs, path) {
                if let Some(list_pos) = self.list_position(song_idx) {
                    proof {
                        crate::app::library::lemma_first_position_of(
                            self.filtered_indices@,
                            song_idx,
                            list_pos as int,
                        );
                    }
                    self.selected_index = list_pos;
                    self.adjust_scroll();
                }
            }
        }
        if self.selected_index >= self.filtered_indices.len() {
            self.selected_index = 0;
            self.scroll_offset = 0;
        }
        self.scanning = false;
        let mut msg: Vec<char> = Vec::new();
        push_str(&mut msg, "扫描完成: ");
        let total = dec_chars(self.songs.len() as u64);
        push_all(&mut msg, &total);
        if new_count > 0 || updated_count > 0 {
            push_str(&mut msg, " 首 (缓存: ");
            let c = dec_chars(cached_count as u64);
            push_all(&mut msg, &c);
            push_str(&mut msg, " | 新增: ");
            let n = dec_chars(new_count as u64);
            push_all(&mut msg, &n);
            push_str(&mut msg, " | 更新: ");
            let u = dec_chars(updated_count as u64);
            push_all(&mut msg, &u);
            push_str(&mut msg, ")");
        } else {
            push_str(&mut msg, " 首歌曲");
        }
        self.status_message = string_from_chars(&msg);
    }
}


// ---------------------------------------------------------------------------
// The music folder
// ---------------------------------------------------------------------------

/// `dirs::audio_dir()` as text: the system's audio folder, when it has one
/// whose path is valid UTF-8. It comes from the environment, so nothing is
/// promised of it.
#[verifier::external_body]
fn system_audio_dir() -> (dir: Option<String>) {
    dirs::audio_dir().and_then(|p| p.to_str().map(|s| s.to_string()))
}

/// The folder to scan: the configured `music_folder`, else the system's
/// audio folder `audio_dir`, else `.`.
pub open spec fn chosen_music_dir(music_folder: Seq<char>, audio_dir: Option<Seq<char>>) -> Seq<char> {
    if music_folder.len() > 0 {
        music_folder
    } else {
        match audio_dir {
            Some(d) => d,
            None => "."@,
        }
    }
}

pub fn music_dir_from(music_folder: &str, audio_dir: Option<String>) -> (dir: String)
    ensures
        dir@ == chosen_music_dir(
            music_folder@,
            match audio_dir {
                Some(d) => Some(d@),
                None => None,
            },
        ),
{
    if !music_folder.is_empty() {
        String::from_str(music_folder)
    } else {
        match audio_dir {
            Some(d) => d,
            None => String::from_str("."),
        }
    }
}

impl App {
    /// The folder to scan: the configured one, else the system's audio
    /// folder, else `.`.
    pub fn music_dir(&self) -> (dir: String)
        ensures
            self.config.music_folder@.len() > 0 ==> dir@ == self.config.music_folder@,
            self.config.music_folder@.len() == 0 ==> exists|a: Option<Seq<char>>|
                dir@ == #[trigger] chosen_music_dir(self.config.music_folder@, a),
    {
        let audio = if self.config.music_folder.as_str().is_empty() {
            system_audio_dir()
        } else {
            None
        };
        let ghost a = match &audio {
            Some(d) => Some(d@),
            None => None,
        };
        let dir = music_dir_from(self.config.music_folder.as_str(), audio);
        assert(dir@ == chosen_music_dir(self.config.music_folder@, a));
        dir
    }
}

// ---------------------------------------------------------------------------
// Which files are music
// ---------------------------------------------------------------------------

/// The extension of a path's file name (`Path::extension` read as text):
/// `None` when the file name has none.
pub uninterp spec fn path_extension(p: Seq<char>) -> Option<Seq<char>>;

/// `Path::extension` of `path`, as text. The result is `path_extension` of
/// the path; the platform's path syntax is not restated here.
#[verifier::external_body]
fn extension_of(path: &str) -> (r: Option<String>)
    ensures
        match r {
            Some(e) => path_extension(path@) == Some(e@),
            None => path_extension(path@) is None,
        },
{
    std::path::Path::new(path).extension().and_then(|e| e.to_str()).map(|e| e.to_string())
}

/// The extensions of the formats the player plays (in lower case): MP3,
/// FLAC, WAV, OGG, M4A and AAC.
pub open spec fn is_music_extension(ext: Seq<char>) -> bool {
    ||| ext == "mp3"@
    ||| ext == "flac"@
    ||| ext == "wav"@
    ||| ext == "ogg"@
    ||| ext == "m4a"@
    ||| ext == "aac"@
}

/// A file is music when its extension, lower-cased, is one of the formats
/// the player plays.
pub open spec fn music_path(p: Seq<char>) -> bool {
    match path_extension(p) {
        Some(e) => is_music_extension(lowercase(e)),
        None => false,
    }
}

/// Whether the scan takes the file at `path` as music.
pub fn is_music_path(path: &str) -> (b: bool)
    ensures
        b == music_path(path@),
{
    match extension_of(path) {
        Some(e) => {
            let low = to_lowercase(e.as_str());
            let l = low.as_str();
            proof {
                reveal_strlit("mp3");
                reveal_strlit("flac");
                reveal_strlit("wav");
                reveal_strlit("ogg");
                reveal_strlit("m4a");
                reveal_strlit("aac");
            }
            str_eq(l, "mp3") || str_eq(l, "flac") || str_eq(l, "wav") || str_eq(l, "ogg")
                || str_eq(l, "m4a") || str_eq(l, "aac")
        },
        None => false,
    }
}

// ---------------------------------------------------------------------------
// Reading a song's tags
// ---------------------------------------------------------------------------

/// The tag fields that the library reads.
#[derive(Debug, Clone, Copy, PartialEq, Eq, Structural)]
pub enum TagField {
    Title,
    Artist,
    Album,
}

/// A text tag read from a file's metadata.
#[derive(Debug)]
pub struct SongTag {
    pub field: TagField,
    pub value: String,
}

/// The value of the first tag of `field` in `tags`.
pub open spec fn first_tag(tags: Seq<SongTag>, field: TagField) -> Option<Seq<char>>
    decreases tags.len(),
{
    if tags.len() == 0 {
        None
    } else if tags[0].field == field {
        Some(tags[0].value@)
    } else {
        first_tag(tags.drop_first(), field)
    }
}

/// The file name of a path without its extension (`Path::file_stem` read
/// as text): `None` when the path has no file name.
pub uninterp spec fn path_file_stem(p: Seq<char>) -> Option<Seq<char>>;

/// `Path::file_stem` of `path`, as text. The result is `path_file_stem` of
/// the path; the platform's path syntax is not restated here.
#[verifier::external_body]
fn file_stem_of(path: &str) -> (r: Option<String>)
    ensures
        match r {
            Some(n) => path_file_stem(path@) == Some(n@),
            None => path_file_stem(path@) is None,
        },
{
    std::path::Path::new(path).file_stem().and_then(|n| n.to_str()).map(|n| n.to_string())
}

pub open spec fn or_default(v: Option<Seq<char>>, d: Seq<char>) -> Seq<char> {
    match v {
        Some(x) => x,
        None => d,
    }
}

/// The song that a file's tags describe: the first title, artist and album
/// tags (metadata read before the container first), each defaulting when
/// absent: the title to the file name without its extension (or `Unknown`),
/// the artist to `未知歌手`, the album to `未知专辑`.
pub open spec fn tagged_song(path: Seq<char>, tags: Seq<SongTag>, s: Song) -> bool {
    &&& s.path@ == path
    &&& s.title@ == or_default(
        first_tag(tags, TagField::Title),
        or_default(path_file_stem(path), "Unknown"@),
    )
    &&& s.artist@ == or_default(first_tag(tags, TagField::Artist), "未知歌手"@)
    &&& s.album@ == or_default(first_tag(tags, TagField::Album), "未知专辑"@)
}

fn find_tag(tags: &Vec<SongTag>, field: TagField) -> (r: Option<String>)
    ensures
        match r {
            Some(v) => first_tag(tags@, field) == Some(v@),
            None => first_tag(tags@, field) is None,
        },
{
    let mut i: usize = 0;
    assert(tags@.skip(0) =~= tags@);
    while i < tags.len()
        invariant
            i <= tags.len(),
            first_tag(tags@, field) == first_tag(tags@.skip(i as int), field),
        decreases tags.len() - i,
    {
        assert(tags@.skip(i as int).drop_first() =~= tags@.skip(i + 1));
        if tags[i].field == field {
            return Some(tags[i].value.clone());
        }
        i = i + 1;
    }
    None
}

/// Build a song from its path, the text tags read from the file (in the
/// order they were read), its length and its modification time.
pub fn song_from_tags(path: &str, tags: &Vec<SongTag>, duration_ms: u64, mtime: u64) -> (s: Song)
    ensures
        tagged_song(path@, tags@, s),
        s.duration == duration_ms,
        s.mtime == mtime,
{
    let title = match find_tag(tags, TagField::Title) {
        Some(t) => t,
        None => match file_stem_of(path) {
            Some(stem) => stem,
            None => String::from_str("Unknown"),
        },
    };
    let artist = match find_tag(tags, TagField::Artist) {
        Some(a) => a,
        None => String::from_str("未知歌手"),
    };
    let album = match find_tag(tags, TagField::Album) {
        Some(a) => a,
        None => String::from_str("未知专辑"),
    };
    Song { path: path.to_string(), title, artist, album, duration: duration_ms, mtime }
}

// ---------------------------------------------------------------------------
// Caches of music folders
// ---------------------------------------------------------------------------

/// A saved cache is used only for the folder it was made for.
pub fn cache_for(cache: SongsCache, music_folder: &str) -> (r: Option<SongsCache>)
    ensures
        (cache.music_folder@ == music_folder@) ==> r == Some(cache),
        (cache.music_folder@ != music_folder@) ==> r is None,
{
    if str_eq(cache.music_folder.as_str(), music_folder) {
        Some(cache)
    } else {
        None
    }
}

/// The position of the first folder named `current` in `folders`, or 0.
pub open spec fn current_folder_position(folders: Seq<CachedFolder>, current: Seq<char>) -> int
    decreases folders.len(),
{
    if folders.len() == 0 {
        0
    } else if folders[0].music_folder@ == current {
        0
    } else if exists|j: int| 1 <= j < folders.len() && folders[j].music_folder@ == current {
        1 + current_folder_position(folders.drop_first(), current)
    } else {
        0
    }
}

impl App {
    /// Take in the list of cached music folders, with the open folder's
    /// entry selected (the first entry when it has none).
    pub fn set_cached_folders(&mut self, folders: Vec<CachedFolder>)
        ensures
            final(self).cached_folders == folders,
            final(self).cached_folders_selected == current_folder_position(
                folders@,
                old(self).config.music_folder@,
            ),
            *final(self) == (App {
                cached_folders: final(self).cached_folders,
                cached_folders_selected: final(self).cached_folders_selected,
                ..*old(self)
            }),
    {
        let mut i: usize = 0;
        let ghost cur = self.config.music_folder@;
        while i < folders.len()
            invariant
                i <= folders.len(),
                cur == self.config.music_folder@,
                forall|j: int| 0 <= j < i ==> (#[trigger] folders@[j]).music_folder@ != cur,
            ensures
                i <= folders.len(),
                forall|j: int| 0 <= j < i ==> (#[trigger] folders@[j]).music_folder@ != cur,
                i < folders.len() ==> folders@[i as int].music_folder@ == cur,
            decreases folders.len() - i,
        {
            if str_eq(folders[i].music_folder.as_str(), self.config.music_folder.as_str()) {
                break;
            }
            i = i + 1;
        }
        proof {
            lemma_current_folder_position(folders@, cur, i as int);
        }
        let found = if i < folders.len() {
            i
        } else {
            0
        };
        self.cached_folders = folders;
        self.cached_folders_selected = found;
    }

    /// Open another music folder: playback stops, the search is cleared, and
    /// the list shows the folder's saved songs (none without a cache for it).
    pub fn switch_folder(&mut self, folder: String, cache: Option<SongsCache>)
        ensures
            final(self).config.music_folder == folder,
            final(self).current_song_index is None,
            !final(self).is_playing,
            final(self).current_pos == 0,
            final(self).duration == 0,
            final(self).search_query@.len() == 0,
            final(self).search_cursor == 0,
            final(self).selected_index == 0,
            final(self).scroll_offset == 0,
            match cache {
                Some(c) => c.music_folder@ == folder@ ==> {
                    &&& final(self).songs == c.songs
                    &&& final(self).filtered_indices@ == stable_sorted(
                        all_indices(c.songs@.len()),
                        song_keys(c.songs@, old(self).sort_mode),
                    )
                    &&& final(self).status_message@ == found_message(c.songs@.len())
                },
                None => true,
            },
            (match cache {
                Some(c) => c.music_folder@ != folder@,
                None => true,
            }) ==> final(self).songs@.len() == 0 && final(self).filtered_indices@.len() == 0,
            (match cache {
                Some(c) => c.music_folder@ != folder@,
                None => true,
            }) ==> final(self).status_message == old(self).status_message,
            final(self).config == (Config { music_folder: folder, ..old(self).config }),
            *final(self) == (App {
                config: final(self).config,
                songs: final(self).songs,
                filtered_indices: final(self).filtered_indices,
                current_song_index: None,
                is_playing: false,
                current_pos: 0,
                duration: 0,
                search_query: final(self).search_query,
                search_cursor: 0,
                selected_index: 0,
                scroll_offset: 0,
                status_message: final(self).status_message,
                ..*old(self)
            }),
    {
        let usable = match cache {
            Some(c) => cache_for(c, folder.as_str()),
            None => None,
        };
        self.config.music_folder = folder;
        self.current_song_index = None;
        self.is_playing = false;
        self.current_pos = 0;
        self.duration = 0;
        self.search_query = String::new();
        self.search_cursor = 0;
        self.selected_index = 0;
        self.scroll_offset = 0;
        match usable {
            Some(c) => {
                self.restore_songs(c.songs);
            },
            None => {
                self.songs = Vec::new();
                self.filtered_indices = Vec::new();
            },
        }
    }
}

proof fn lemma_current_folder_position(folders: Seq<CachedFolder>, cur: Seq<char>, i: int)
    requires
        0 <= i <= folders.len(),
        forall|j: int| 0 <= j < i ==> (#[trigger] folders[j]).music_folder@ != cur,
        i < folders.len() ==> folders[i].music_folder@ == cur,
    ensures
        current_folder_position(folders, cur) == if i < folders.len() {
            i
        } else {
            0
        },
    decreases i,
{
    if i == folders.len() && folders.len() > 0 {
        if folders[0].music_folder@ != cur {
            assert(!exists|j: int| 1 <= j < folders.len() && folders[j].music_folder@ == cur);
        }
    } else if i > 0 {
        let t = folders.drop_first();
        assert forall|j: int| 0 <= j < i - 1 implies (#[trigger] t[j]).music_folder@ != cur by {
            assert(t[j] == folders[j + 1]);
        }
        assert(folders[i].music_folder@ == cur);
        assert(t[i - 1] == folders[i]);
        lemma_current_folder_position(t, cur, i - 1);
    }
}
} // verus!
