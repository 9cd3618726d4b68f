//! The player's modes: input mode, search field, sort order, play order.
use vstd::prelude::*;

verus! {

/// Input mode for Vim-style keybindings.
#[derive(Debug, Clone, Copy, PartialEq, Eq, Structural)]
pub enum Mode {
    /// Navigation and playback control.
    Normal,
    /// Typing a search query.
    Search,
    /// Waiting for the user to confirm a rescan.
    ConfirmRefresh,
    /// Showing the keybindings.
    Help,
    /// Typing a hex theme colour.
    Theme,
    /// Choosing another music folder's cache.
    SwitchCache,
}

pub open spec fn mode_name(m: Mode) -> Seq<char> {
    match m {
        Mode::Normal => "Normal"@,
        Mode::Search => "Search"@,
        Mode::ConfirmRefresh => "Confirm"@,
        Mode::Help => "Help"@,
        Mode::Theme => "Theme"@,
        Mode::SwitchCache => "SwitchCache"@,
    }
}

impl Default for Mode {
    fn default() -> (m: Self)
        ensures
            m == Mode::Normal,
    {
        Mode::Normal
    }
}

impl Mode {
    pub fn as_str(&self) -> (s: &'static str)
        ensures
            s@ == mode_name(*self),
    {
        match self {
            Mode::Normal => "Normal",
            Mode::Search => "Search",
            Mode::ConfirmRefresh => "Confirm",
            Mode::Help => "Help",
            Mode::Theme => "Theme",
            Mode::SwitchCache => "SwitchCache",
        }
    }
}

/// The field that a search looks in.
#[derive(Debug, Clone, Copy, PartialEq, Eq, Structural)]
pub enum SearchMode {
    /// Title or artist (the default).
    TitleArtist,
    Artist,
    Album,
    Filename,
}

pub open spec fn search_mode_next(m: SearchMode) -> SearchMode {
    match m {
        SearchMode::TitleArtist => SearchMode::Artist,
        SearchMode::Artist => SearchMode::Album,
        SearchMode::Album => SearchMode::Filename,
        SearchMode::Filename => SearchMode::TitleArtist,
    }
}

pub open spec fn search_mode_name(m: SearchMode) -> Seq<char> {
    match m {
        SearchMode::TitleArtist => "歌曲/歌手"@,
        SearchMode::Artist => "歌手"@,
        SearchMode::Album => "专辑"@,
        SearchMode::Filename => "文件名"@,
    }
}

impl Default for SearchMode {
    fn default() -> (m: Self)
        ensures
            m == SearchMode::TitleArtist,
    {
        SearchMode::TitleArtist
    }
}

impl SearchMode {
    /// Cycle: TitleArtist -> Artist -> Album -> Filename -> TitleArtist.
    pub fn next(&self) -> (n: Self)
        ensures
            n == search_mode_next(*self),
    {
        match self {
            SearchMode::TitleArtist => SearchMode::Artist,
            SearchMode::Artist => SearchMode::Album,
            SearchMode::Album => SearchMode::Filename,
            SearchMode::Filename => SearchMode::TitleArtist,
        }
    }

    /// The display name.
    pub fn as_str(&self) -> (s: &'static str)
        ensures
            s@ == search_mode_name(*self),
    {
        match self {
            SearchMode::TitleArtist => "歌曲/歌手",
            SearchMode::Artist => "歌手",
            SearchMode::Album => "专辑",
            SearchMode::Filename => "文件名",
        }
    }
}

/// The order of the playlist.
#[derive(Debug, Clone, Copy, PartialEq, Eq, Structural)]
pub enum SortMode {
    /// By title (the default).
    Title,
    Artist,
    Album,
    /// By parent folder.
    Folder,
}

pub open spec fn sort_mode_next(m: SortMode) -> SortMode {
    match m {
        SortMode::Title => SortMode::Artist,
        SortMode::Artist => SortMode::Album,
        SortMode::Album => SortMode::Folder,
        SortMode::Folder => SortMode::Title,
    }
}

pub open spec fn sort_mode_name(m: SortMode) -> Seq<char> {
    match m {
        SortMode::Title => "歌曲名"@,
        SortMode::Artist => "歌手"@,
        SortMode::Album => "专辑"@,
        SortMode::Folder => "文件夹"@,
    }
}

impl Default for SortMode {
    fn default() -> (m: Self)
        ensures
            m == SortMode::Title,
    {
        SortMode::Title
    }
}

impl SortMode {
    /// Cycle: Title -> Artist -> Album -> Folder -> Title.
    pub fn next(&self) -> (n: Self)
        ensures
            n == sort_mode_next(*self),
    {
        match self {
            SortMode::Title => SortMode::Artist,
            SortMode::Artist => SortMode::Album,
            SortMode::Album => SortMode::Folder,
            SortMode::Folder => SortMode::Title,
        }
    }

    /// The display name.
    pub fn as_str(&self) -> (s: &'static str)
        ensures
            s@ == sort_mode_name(*self),
    {
        match self {
            SortMode::Title => "歌曲名",
            SortMode::Artist => "歌手",
            SortMode::Album => "专辑",
            SortMode::Folder => "文件夹",
        }
    }
}

/// Playback order.
#[derive(Debug, Clone, Copy, PartialEq, Eq, Structural)]
pub enum PlayMode {
    /// In list order, stopping after the last song (the default).
    Sequential,
    /// Repeat the current song.
    Single,
    /// Repeat the whole list.
    All,
    /// Random order.
    Shuffle,
}

pub open spec fn play_mode_next(m: PlayMode) -> PlayMode {
    match m {
        PlayMode::Sequential => PlayMode::Single,
        PlayMode::Single => PlayMode::All,
        PlayMode::All => PlayMode::Shuffle,
        PlayMode::Shuffle => PlayMode::Sequential,
    }
}

pub open spec fn play_mode_name(m: PlayMode) -> Seq<char> {
    match m {
        PlayMode::Sequential => "顺序播放"@,
        PlayMode::Single => "单曲循环"@,
        PlayMode::All => "列表循环"@,
        PlayMode::Shuffle => "随机播放"@,
    }
}

pub open spec fn play_mode_icon(m: PlayMode) -> Seq<char> {
    match m {
        PlayMode::Sequential => "→"@,
        PlayMode::Single => "🔂"@,
        PlayMode::All => "🔁"@,
        PlayMode::Shuffle => "🔀"@,
    }
}

impl Default for PlayMode {
    fn default() -> (m: Self)
        ensures
            m == PlayMode::Sequential,
    {
        PlayMode::Sequential
    }
}

impl PlayMode {
    /// Cycle: Sequential -> Single -> All -> Shuffle -> Sequential.
    pub fn next(&self) -> (n: Self)
        ensures
            n == play_mode_next(*self),
    {
        match self {
            PlayMode::Sequential => PlayMode::Single,
            PlayMode::Single => PlayMode::All,
            PlayMode::All => PlayMode::Shuffle,
            PlayMode::Shuffle => PlayMode::Sequential,
        }
    }

    /// The display name.
    pub fn as_str(&self) -> (s: &'static str)
        ensures
            s@ == play_mode_name(*self),
    {
        match self {
            PlayMode::Sequential => "顺序播放",
            PlayMode::Single => "单曲循环",
            PlayMode::All => "列表循环",
            PlayMode::Shuffle => "随机播放",
        }
    }

    /// The status bar icon.
    pub fn icon(&self) -> (s: &'static str)
        ensures
            s@ == play_mode_icon(*self),
    {
        match self {
            PlayMode::Sequential => "→",
            PlayMode::Single => "🔂",
            PlayMode::All => "🔁",
            PlayMode::Shuffle => "🔀",
        }
    }
}

/// Law: cycling the search field visits all four fields and comes back
/// after four steps.
pub proof fn lemma_search_mode_cycle(m: SearchMode)
    ensures
        search_mode_next(search_mode_next(search_mode_next(search_mode_next(m)))) == m,
        search_mode_next(m) != m,
        search_mode_next(search_mode_next(m)) != m,
        search_mode_next(search_mode_next(search_mode_next(m))) != m,
{
}

/// Law: cycling the sort order visits all four orders and comes back after
/// four steps.
pub proof fn lemma_sort_mode_cycle(m: SortMode)
    ensures
        sort_mode_next(sort_mode_next(sort_mode_next(sort_mode_next(m)))) == m,
        sort_mode_next(m) != m,
        sort_mode_next(sort_mode_next(m)) != m,
        sort_mode_next(sort_mode_next(sort_mode_next(m))) != m,
{
}

/// Law: cycling the play order visits all four orders and comes back after
/// four steps.
pub proof fn lemma_play_mode_cycle(m: PlayMode)
    ensures
        play_mode_next(play_mode_next(play_mode_next(play_mode_next(m)))) == m,
        play_mode_next(m) != m,
        play_mode_next(play_mode_next(m)) != m,
        play_mode_next(play_mode_next(play_mode_next(m))) != m,
{
}

} // verus!
