//! The player's state and the operations on the playlist.
use crate::app::mode::{Mode, PlayMode, SearchMode, SortMode};
use crate::config::Config;
use crate::text::dec;
use vstd::prelude::*;

verus! {

/// A song of the library.
#[derive(Debug, Clone)]
pub struct Song {
    pub path: String,
    pub title: String,
    pub artist: String,
    pub album: String,
    /// Length in milliseconds (the cache keeps whole seconds).
    pub duration: u64,
    /// File modification time (Unix seconds), for cache invalidation.
    pub mtime: u64,
}

/// The songs found in a music folder, as saved between runs.
#[derive(Debug, Clone)]
pub struct SongsCache {
    /// The music folder this cache is for.
    pub music_folder: String,
    pub songs: Vec<Song>,
}

/// A music folder that has a saved cache.
#[derive(Debug, Clone)]
pub struct CachedFolder {
    pub music_folder: String,
    pub song_count: usize,
}

/// The whole state of the player.
pub struct App {
    pub mode: Mode,
    pub running: bool,
    pub config: Config,
    // Playlist
    pub songs: Vec<Song>,
    /// Indices into `songs` of the songs listed, in display order.
    pub filtered_indices: Vec<usize>,
    /// Position of the selection in `filtered_indices`.
    pub selected_index: usize,
    /// First listed position shown.
    pub scroll_offset: usize,
    /// Number of list rows that fit on screen.
    pub playlist_visible_height: usize,
    // Playback
    /// Index into `songs` of the song loaded in the player.
    pub current_song_index: Option<usize>,
    pub is_playing: bool,
    /// Playback position in milliseconds.
    pub current_pos: u64,
    /// Length of the loaded song in milliseconds.
    pub duration: u64,
    pub play_mode: PlayMode,
    // Search
    pub search_query: String,
    /// Cursor position in the query, in characters.
    pub search_cursor: usize,
    pub search_mode: SearchMode,
    pub sort_mode: SortMode,
    // Theme colour input
    pub theme_color_input: String,
    pub theme_color_cursor: usize,
    // Status message
    pub status_message: String,
    /// When the status message stops being current (milliseconds on the
    /// player's clock); `None` for a message that stays.
    pub status_expiry: Option<u64>,
    /// Count prefix typed before a command (Vim style, e.g. `5j`, `10g`).
    pub count: Option<usize>,
    // Cache switching
    pub cached_folders: Vec<CachedFolder>,
    pub cached_folders_selected: usize,
    /// Whether a background scan is running.
    pub scanning: bool,
}

/// How long a status message set by `set_status` stays, in milliseconds.
pub const STATUS_DURATION_MS: u64 = 3000;

/// `max(h, 1)`: the playlist always shows at least one row.
pub open spec fn visible_rows(h: usize) -> int {
    if h > 1 {
        h as int
    } else {
        1
    }
}

/// The scroll offset that keeps `sel` in view: unchanged when it is, else
/// the closest offset that shows it.
pub open spec fn scroll_for(sel: usize, off: usize, h: usize) -> int {
    let vis = visible_rows(h);
    if sel < off {
        sel as int
    } else if sel >= off + vis {
        sel - vis + 1
    } else {
        off as int
    }
}

/// `0, 1, ..., n - 1`.
pub open spec fn all_indices(n: nat) -> Seq<usize> {
    Seq::new(n, |i: int| i as usize)
}

pub fn index_range(n: usize) -> (v: Vec<usize>)
    ensures
        v@ == all_indices(n as nat),
{
    let mut v: Vec<usize> = Vec::new();
    let mut i: usize = 0;
    while i < n
        invariant
            i <= n,
            v@ == all_indices(i as nat),
        decreases n - i,
    {
        v.push(i);
        i = i + 1;
        assert(v@ =~= all_indices(i as nat));
    }
    v
}

/// The message that reports the number of songs found.
pub open spec fn found_message(n: nat) -> Seq<char> {
    "发现 "@ + dec(n) + " 首歌曲"@
}

impl Default for App {
    /// The start state with the default settings.
    fn default() -> (app: Self)
        ensures
            app.mode == Mode::Normal,
            app.running,
            app.config.music_folder@.len() == 0,
            app.config.last_song_path@.len() == 0,
            app.config.last_position_secs == 0,
            app.config.themecolor@.len() == 0,
            app.config.sort_mode == SortMode::Title,
            app.songs@.len() == 0,
            app.filtered_indices@.len() == 0,
            app.selected_index == 0,
            app.scroll_offset == 0,
            app.playlist_visible_height == 10,
            app.current_song_index is None,
            !app.is_playing,
            app.current_pos == 0,
            app.duration == 0,
            app.play_mode == PlayMode::Sequential,
            app.search_query@.len() == 0,
            app.search_cursor == 0,
            app.search_mode == SearchMode::TitleArtist,
            app.sort_mode == SortMode::Title,
            app.theme_color_input@.len() == 0,
            app.theme_color_cursor == 0,
            app.status_message@.len() == 0,
            app.status_expiry is None,
            app.count is None,
            app.cached_folders@.len() == 0,
            app.cached_folders_selected == 0,
            !app.scanning,
    {
        App::with_config(Config::default())
    }
}

impl App {
    /// The start state with the given settings: the playlist empty, in the
    /// saved sort order.
    pub fn with_config(config: Config) -> (app: App)
        ensures
            app.mode == Mode::Normal,
            app.running,
            app.config == config,
            app.songs@.len() == 0,
            app.filtered_indices@.len() == 0,
            app.selected_index == 0,
            app.scroll_offset == 0,
            app.playlist_visible_height == 10,
            app.current_song_index is None,
            !app.is_playing,
            app.current_pos == 0,
            app.duration == 0,
            app.play_mode == PlayMode::Sequential,
            app.search_query@.len() == 0,
            app.search_cursor == 0,
            app.search_mode == SearchMode::TitleArtist,
            app.sort_mode == config.sort_mode,
            app.theme_color_input@.len() == 0,
            app.theme_color_cursor == 0,
            app.status_message@.len() == 0,
            app.status_expiry is None,
            app.count is None,
            app.cached_folders@.len() == 0,
            app.cached_folders_selected == 0,
            !app.scanning,
    {
        let sort_mode = config.sort_mode;
        App {
            mode: Mode::Normal,
            running: true,
            config,
            songs: Vec::new(),
            filtered_indices: Vec::new(),
            selected_index: 0,
            scroll_offset: 0,
            playlist_visible_height: 10,
            current_song_index: None,
            is_playing: false,
            current_pos: 0,
            duration: 0,
            play_mode: PlayMode::Sequential,
            search_query: String::new(),
            search_cursor: 0,
            search_mode: SearchMode::TitleArtist,
            sort_mode,
            theme_color_input: String::new(),
            theme_color_cursor: 0,
            status_message: String::new(),
            status_expiry: None,
            count: None,
            cached_folders: Vec::new(),
            cached_folders_selected: 0,
            scanning: false,
        }
    }

    /// The state at start-up: the saved settings, with the music folder
    /// given on the command line (if any) in place of the saved one.
    pub fn new(config: Config, music_dir: Option<String>) -> (app: App)
        ensures
            app.config.music_folder@ == (match music_dir {
                Some(d) => d@,
                None => config.music_folder@,
            }),
            app.config.last_song_path == config.last_song_path,
            app.config.last_position_secs == config.last_position_secs,
            app.config.themecolor == config.themecolor,
            app.config.sort_mode == config.sort_mode,
            app.sort_mode == config.sort_mode,
            app.songs@.len() == 0,
            app.filtered_indices@.len() == 0,
            app.mode == Mode::Normal,
            app.running,
            app.selected_index == 0,
            app.scroll_offset == 0,
            app.playlist_visible_height == 10,
            app.current_song_index is None,
            !app.is_playing,
            app.current_pos == 0,
            app.duration == 0,
            app.play_mode == PlayMode::Sequential,
            app.search_query@.len() == 0,
            app.search_cursor == 0,
            app.search_mode == SearchMode::TitleArtist,
            app.theme_color_input@.len() == 0,
            app.theme_color_cursor == 0,
            app.count is None,
            app.cached_folders@.len() == 0,
            app.cached_folders_selected == 0,
            !app.scanning,
            app.status_message@.len() == 0,
            app.status_expiry is None,
    {
        let mut app = App::with_config(config);
        if let Some(dir) = music_dir {
            app.config.music_folder = dir;
        }
        app
    }

    // -----------------------------------------------------------------------
    // Status line
    // -----------------------------------------------------------------------

    /// Show `msg` for a few seconds from `now_ms`.
    pub fn set_status(&mut self, msg: String, now_ms: u64)
        ensures
            status_set(*old(self), *final(self), msg@, now_ms),
            final(self).status_message == msg,
    {
        self.status_message = msg;
        self.status_expiry = Some(
            if now_ms <= u64::MAX - STATUS_DURATION_MS {
                now_ms + STATUS_DURATION_MS
            } else {
                u64::MAX
            },
        );
    }

    // -----------------------------------------------------------------------
    // Navigation
    // -----------------------------------------------------------------------

    /// Scroll so that the selection is in view.
    pub fn adjust_scroll(&mut self)
        ensures
            *final(self) == scrolled(*old(self)),
    {
        let visible_height = if self.playlist_visible_height > 1 {
            self.playlist_visible_height
        } else {
            1
        };
        if self.selected_index < self.scroll_offset {
            self.scroll_offset = self.selected_index;
        } else if self.selected_index - self.scroll_offset >= visible_height {
            self.scroll_offset = self.selected_index - visible_height + 1;
        }
    }

    /// Move the selection up one row.
    pub fn move_up(&mut self)
        ensures
            *final(self) == moved_up(*old(self)),
    {
        if self.filtered_indices.len() > 0 && self.selected_index > 0 {
            self.selected_index = self.selected_index - 1;
            self.adjust_scroll();
        }
    }

    /// Move the selection down one row.
    pub fn move_down(&mut self)
        ensures
            *final(self) == moved_down(*old(self)),
    {
        if self.filtered_indices.len() > 0 && self.selected_index < self.filtered_indices.len()
            - 1 {
            self.selected_index = self.selected_index + 1;
            self.adjust_scroll();
        }
    }

    /// Move the selection up `count` rows, stopping at the first.
    pub fn move_up_by(&mut self, count: usize)
        ensures
            *final(self) == moved_up_by(*old(self), count),
    {
        if self.filtered_indices.len() == 0 {
            return;
        }
        let jump = if count < self.selected_index {
            count
        } else {
            self.selected_index
        };
        self.selected_index = self.selected_index - jump;
        self.adjust_scroll();
    }

    /// Move the selection down `count` rows, stopping at the last.
    pub fn move_down_by(&mut self, count: usize)
        ensures
            *final(self) == moved_down_by(*old(self), count),
    {
        if self.filtered_indices.len() == 0 {
            return;
        }
        let len = self.filtered_indices.len();
        let room = if self.selected_index < len - 1 {
            len - 1 - self.selected_index
        } else {
            0
        };
        let jump = if count < room {
            count
        } else {
            room
        };
        self.selected_index = self.selected_index + jump;
        self.adjust_scroll();
    }

    /// Select the `line`-th listed song (counting from 1), or the last one.
    pub fn goto_line(&mut self, line: usize)
        requires
            old(self).filtered_indices@.len() > 0 ==> line >= 1,
        ensures
            *final(self) == went_to_line(*old(self), line),
    {
        if self.filtered_indices.len() == 0 {
            return;
        }
        let last = self.filtered_indices.len() - 1;
        let target = if line - 1 < last {
            line - 1
        } else {
            last
        };
        self.selected_index = target;
        self.adjust_scroll();
    }

    /// Take the typed count (1 when none was typed). The count's display in
    /// the status line is cleared, unless a timed message shows and the
    /// count is 1.
    pub fn consume_count(&mut self) -> (count: usize)
        ensures
            count == match old(self).count {
                Some(c) => c,
                None => 1,
            },
            count_consumed(*old(self), *final(self), count > 1 || old(self).status_expiry is None),
    {
        let count = match self.count.take() {
            Some(c) => c,
            None => 1,
        };
        if count > 1 || self.status_expiry.is_none() {
            self.status_message = String::new();
        }
        count
    }

    /// Take the typed count, if any, clearing its display as `consume_count` does.
    pub fn consume_count_optional(&mut self) -> (count: Option<usize>)
        ensures
            count == old(self).count,
            count_consumed(
                *old(self),
                *final(self),
                count is Some && (count->0 > 1 || old(self).status_expiry is None),
            ),
    {
        let count = self.count.take();
        if let Some(c) = count {
            if c > 1 || self.status_expiry.is_none() {
                self.status_message = String::new();
            }
        }
        count
    }

    /// Position in the list of the song `song_idx`, if it is listed.
    pub fn list_position(&self, song_idx: usize) -> (pos: Option<usize>)
        ensures
            match pos {
                Some(p) => p < self.filtered_indices@.len() && self.filtered_indices@[p as int]
                    == song_idx && forall|j: int|
                    0 <= j < p ==> #[trigger] self.filtered_indices@[j] != song_idx,
                None => forall|j: int|
                    0 <= j < self.filtered_indices@.len() ==> #[trigger] self.filtered_indices@[j]
                        != song_idx,
            },
    {
        let mut i: usize = 0;
        while i < self.filtered_indices.len()
            invariant
                i <= self.filtered_indices@.len(),
                forall|j: int| 0 <= j < i ==> #[trigger] self.filtered_indices@[j] != song_idx,
            decreases self.filtered_indices@.len() - i,
        {
            if self.filtered_indices[i] == song_idx {
                return Some(i);
            }
            i = i + 1;
        }
        None
    }

    /// Select the playing song, if it is listed. Returns whether it was.
    pub fn scroll_to_playing(&mut self) -> (found: bool)
        ensures
            found == playing_listed(*old(self)),
            found ==> *final(self) == scrolled(
                App { selected_index: first_index_of(old(self).filtered_indices@, old(self).current_song_index->0) as usize, ..*old(self) },
            ),
            !found ==> *final(self) == *old(self),
    {
        if let Some(idx) = self.current_song_index {
            if let Some(pos) = self.list_position(idx) {
                proof {
                    lemma_first_index_of(self.filtered_indices@, idx, pos as int);
                }
                self.selected_index = pos;
                self.adjust_scroll();
                return true;
            }
        }
        false
    }
}

// ---------------------------------------------------------------------------
// The effects of the navigation operations
// ---------------------------------------------------------------------------

/// The expiry time of a message shown at `now_ms`.
pub open spec fn expiry_after(now_ms: u64) -> u64 {
    if now_ms <= u64::MAX - STATUS_DURATION_MS {
        (now_ms + STATUS_DURATION_MS) as u64
    } else {
        u64::MAX
    }
}

/// `post` is `pre` showing the timed message `msg` from `now_ms`.
pub open spec fn status_set(pre: App, post: App, msg: Seq<char>, now_ms: u64) -> bool {
    &&& post.status_message@ == msg
    &&& post == App {
        status_message: post.status_message,
        status_expiry: Some(expiry_after(now_ms)),
        ..pre
    }
}

/// `pre` scrolled so that its selection shows.
pub open spec fn scrolled(pre: App) -> App {
    App {
        scroll_offset: scroll_for(pre.selected_index, pre.scroll_offset, pre.playlist_visible_height)
            as usize,
        ..pre
    }
}

pub open spec fn moved_up(pre: App) -> App {
    if pre.filtered_indices@.len() > 0 && pre.selected_index > 0 {
        scrolled(App { selected_index: (pre.selected_index - 1) as usize, ..pre })
    } else {
        pre
    }
}

pub open spec fn moved_down(pre: App) -> App {
    if pre.selected_index + 1 < pre.filtered_indices@.len() {
        scrolled(App { selected_index: (pre.selected_index + 1) as usize, ..pre })
    } else {
        pre
    }
}

pub open spec fn moved_up_by(pre: App, count: usize) -> App {
    if pre.filtered_indices@.len() == 0 {
        pre
    } else {
        let sel = if count < pre.selected_index {
            (pre.selected_index - count) as usize
        } else {
            0
        };
        scrolled(App { selected_index: sel, ..pre })
    }
}

pub open spec fn moved_down_by(pre: App, count: usize) -> App {
    let len = pre.filtered_indices@.len();
    if len == 0 {
        pre
    } else {
        let sel = pre.selected_index;
        let room: int = if sel + 1 < len {
            len - sel - 1
        } else {
            0
        };
        let jump: int = if count < room {
            count as int
        } else {
            room
        };
        scrolled(App { selected_index: (sel + jump) as usize, ..pre })
    }
}

pub open spec fn went_to_line(pre: App, line: usize) -> App {
    let len = pre.filtered_indices@.len();
    if len == 0 {
        pre
    } else {
        let target = if line - 1 < len - 1 {
            line - 1
        } else {
            len - 1
        };
        scrolled(App { selected_index: target as usize, ..pre })
    }
}

/// `post` is `pre` with the count taken, and the status message cleared
/// when `clear` holds.
pub open spec fn count_consumed(pre: App, post: App, clear: bool) -> bool {
    &&& post.status_message@ == if clear {
        Seq::<char>::empty()
    } else {
        pre.status_message@
    }
    &&& post == App { count: None, status_message: post.status_message, ..pre }
}

/// The first position of `x` in `s` (`s.len()` when there is none).
pub open spec fn first_index_of(s: Seq<usize>, x: usize) -> int
    decreases s.len(),
{
    if s.len() == 0 {
        0
    } else if s[0] == x {
        0
    } else {
        1 + first_index_of(s.drop_first(), x)
    }
}

pub proof fn lemma_first_index_of(s: Seq<usize>, x: usize, p: int)
    requires
        0 <= p <= s.len(),
        forall|j: int| 0 <= j < p ==> #[trigger] s[j] != x,
        p == s.len() || s[p] == x,
    ensures
        first_index_of(s, x) == p,
    decreases p,
{
    if p > 0 {
        let t = s.drop_first();
        assert forall|j: int| 0 <= j < p - 1 implies #[trigger] t[j] != x by {
            assert(t[j] == s[j + 1]);
        }
        if p < s.len() {
            assert(t[p - 1] == s[p]);
        }
        lemma_first_index_of(t, x, p - 1);
    }
}

/// Whether the playing song is listed.
pub open spec fn playing_listed(app: App) -> bool {
    app.current_song_index matches Some(idx) && exists|j: int|
        0 <= j < app.filtered_indices@.len() && app.filtered_indices@[j] == idx
}

/// Law: after `adjust_scroll` the selection is on screen: the offset is at
/// most the selection, and the selection is within the visible rows.
pub proof fn lemma_scroll_shows_selection(sel: usize, off: usize, h: usize)
    ensures
        scroll_for(sel, off, h) <= sel < scroll_for(sel, off, h) + visible_rows(h),
        scroll_for(sel, off, h) >= 0,
{
}

/// Law: moving down by `count` rows then up by `count` rows comes back to
/// the start row when the move down was not cut short by the end of the list.
pub proof fn lemma_move_down_up(m: App, count: usize)
    requires
        m.selected_index + count < m.filtered_indices@.len(),
        m.filtered_indices@.len() <= usize::MAX,
    ensures
        moved_up_by(moved_down_by(m, count), count).selected_index == m.selected_index,
{
}

/// `moved_down` applied `k` times.
pub open spec fn moved_down_times(m: App, k: nat) -> App
    decreases k,
{
    if k == 0 {
        m
    } else {
        moved_down(moved_down_times(m, (k - 1) as nat))
    }
}

/// `moved_up` applied `k` times.
pub open spec fn moved_up_times(m: App, k: nat) -> App
    decreases k,
{
    if k == 0 {
        m
    } else {
        moved_up(moved_up_times(m, (k - 1) as nat))
    }
}

/// The selection is on screen.
pub open spec fn selection_shown(m: App) -> bool {
    m.scroll_offset <= m.selected_index < m.scroll_offset + visible_rows(m.playlist_visible_height)
}

proof fn lemma_down_step(m: App, k: usize)
    requires
        selection_shown(m),
        m.filtered_indices@.len() <= usize::MAX,
        k < usize::MAX,
    ensures
        moved_down(moved_down_by(m, k)) == moved_down_by(m, (k + 1) as usize),
{
    let len = m.filtered_indices@.len();
    if len > 0 {
        let vis = visible_rows(m.playlist_visible_height);
        let sel = m.selected_index;
        let room: int = if sel + 1 < len {
            len - sel - 1
        } else {
            0
        };
        let a: int = sel + if k < room {
            k as int
        } else {
            room
        };
        let b: int = sel + if k + 1 < room {
            k + 1
        } else {
            room
        };
        let p = moved_down_by(m, k);
        assert(p.selected_index == a);
        assert(p.scroll_offset == scroll_for(a as usize, m.scroll_offset, m.playlist_visible_height));
        if a + 1 < len {
            assert(b == a + 1);
            let o1 = scroll_for(a as usize, m.scroll_offset, m.playlist_visible_height);
            assert(scroll_for(b as usize, o1 as usize, m.playlist_visible_height) == scroll_for(
                b as usize,
                m.scroll_offset,
                m.playlist_visible_height,
            ));
        } else {
            assert(b == a);
        }
    }
}

/// Law: a count before a downward move (`5j`) moves as far as that many
/// single moves, while the selection is on screen.
pub proof fn lemma_count_down_repeats(m: App, k: usize)
    requires
        selection_shown(m),
        m.filtered_indices@.len() <= usize::MAX,
    ensures
        moved_down_by(m, k) == moved_down_times(m, k as nat),
    decreases k,
{
    if k > 0 {
        lemma_count_down_repeats(m, (k - 1) as usize);
        lemma_down_step(m, (k - 1) as usize);
    } else if m.filtered_indices@.len() > 0 {
        assert(moved_down_by(m, 0) == m);
    }
}

proof fn lemma_up_step(m: App, k: usize)
    requires
        selection_shown(m),
        k < usize::MAX,
    ensures
        moved_up(moved_up_by(m, k)) == moved_up_by(m, (k + 1) as usize),
{
    let len = m.filtered_indices@.len();
    if len > 0 {
        let sel = m.selected_index;
        let a: int = if k < sel {
            sel - k
        } else {
            0
        };
        let b: int = if k + 1 < sel {
            sel - k - 1
        } else {
            0
        };
        let p = moved_up_by(m, k);
        assert(p.selected_index == a);
        if a > 0 {
            assert(b == a - 1);
            let o1 = scroll_for(a as usize, m.scroll_offset, m.playlist_visible_height);
            assert(scroll_for(b as usize, o1 as usize, m.playlist_visible_height) == scroll_for(
                b as usize,
                m.scroll_offset,
                m.playlist_visible_height,
            ));
        } else {
            assert(b == 0);
        }
    }
}

/// Law: a count before an upward move (`5k`) moves as far as that many
/// single moves, while the selection is on screen.
pub proof fn lemma_count_up_repeats(m: App, k: usize)
    requires
        selection_shown(m),
    ensures
        moved_up_by(m, k) == moved_up_times(m, k as nat),
    decreases k,
{
    if k > 0 {
        lemma_count_up_repeats(m, (k - 1) as usize);
        lemma_up_step(m, (k - 1) as usize);
    } else if m.filtered_indices@.len() > 0 {
        assert(moved_up_by(m, 0) == m);
    }
}

} // verus!
