//! What each key does in each mode (Vim-style keybindings).
use crate::app::app::{
    all_indices, count_consumed, expiry_after, index_range, moved_down,
    moved_down_by, moved_up, moved_up_by, playing_listed, scrolled, status_set, went_to_line, App,
};
use crate::app::library::{filter_applied, filter_result, song_keys, sort_cycled, stable_sorted};
use crate::app::mode::{
    play_mode_name, play_mode_next, search_mode_name, search_mode_next, Mode,
};
use crate::text::{dec, dec_chars, push_all, push_str, str_to_chars, string_from_chars};
use crate::theme::{
    color_text, color_text_range, hex6, hex6_range, hex_digit, hex_value,
    lemma_accepted_color_reads_back, parse_hex_color_spec,
};
use vstd::prelude::*;
use vstd::string::StringExecFns;

verus! {

/// A key, as the terminal reports it.
#[derive(Debug, Clone, Copy, PartialEq, Eq, Structural)]
pub enum KeyCode {
    Char(char),
    Enter,
    Esc,
    Backspace,
    Delete,
    Left,
    Right,
    Up,
    Down,
    Home,
    End,
    PageUp,
    PageDown,
    /// Any other key.
    Other,
}

/// The modifier keys held with a key.
#[derive(Debug, Clone, Copy, PartialEq, Eq, Structural)]
pub enum KeyMods {
    /// No modifier.
    Plain,
    /// Control alone.
    Control,
    /// Any other combination.
    Other,
}

/// A key press.
#[derive(Debug, Clone, Copy, PartialEq, Eq, Structural)]
pub struct KeyInput {
    pub code: KeyCode,
    pub mods: KeyMods,
}

/// What the player must do after a key, beyond the state change.
#[derive(Debug, Clone, Copy, PartialEq, Eq, Structural)]
pub enum Action {
    Nothing,
    /// Quit, recording the playback position (`App::quit`).
    Quit,
    /// Seek ten seconds back or forward, then `App::seek_done`.
    Seek { forward: bool },
    /// Play the selected song.
    Play,
    /// Pause or resume (`App::toggle_pause`).
    TogglePause,
    /// Play the next song (`App::next_song`).
    Next,
    /// Play the previous song (`App::prev_song`).
    Prev,
    /// Stop playback (`App::stop`).
    Stop,
    /// Volume up or down by a tenth.
    VolumeUp,
    VolumeDown,
    /// Start a background rescan (`App::begin_scan`).
    StartScan,
    /// Write the settings.
    SaveConfig,
    /// Read the list of cached folders, then `App::open_switch_cache`.
    OpenSwitchCache,
    /// Switch to the cached folder at this position of `cached_folders`.
    SwitchFolder(usize),
}

/// Handles key presses.
pub struct InputHandler;

// ---------------------------------------------------------------------------
// Text editing helpers
// ---------------------------------------------------------------------------

fn char_count(s: &String) -> (n: usize)
    ensures
        n == s@.len(),
{
    str_to_chars(s.as_str()).len()
}

fn with_char_inserted(s: &String, at: usize, c: char) -> (r: String)
    requires
        at <= s@.len(),
    ensures
        r@ == s@.insert(at as int, c),
{
    let mut v = str_to_chars(s.as_str());
    v.insert(at, c);
    string_from_chars(&v)
}

fn with_char_removed(s: &String, at: usize) -> (r: String)
    requires
        at < s@.len(),
    ensures
        r@ == s@.remove(at as int),
{
    let mut v = str_to_chars(s.as_str());
    v.remove(at);
    string_from_chars(&v)
}

fn digit_value(c: char) -> (d: Option<usize>)
    ensures
        d == if '0' <= c && c <= '9' {
            Some((c as int - '0' as int) as usize)
        } else {
            None::<usize>
        },
{
    if '0' <= c && c <= '9' {
        Some((c as u32 - '0' as u32) as usize)
    } else {
        None
    }
}

fn decimal_string(n: usize) -> (s: String)
    ensures
        s@ == dec(n as nat),
{
    let v = dec_chars(n as u64);
    string_from_chars(&v)
}

// ---------------------------------------------------------------------------
// What the keys do
// ---------------------------------------------------------------------------

pub open spec fn is_char(key: KeyInput, c: char) -> bool {
    key.code == KeyCode::Char(c)
}

pub open spec fn is_digit_char(c: char) -> bool {
    '0' <= c && c <= '9'
}

/// In normal mode, a digit extends the count (a first digit may not be `0`).
pub open spec fn extends_count(pre: App, key: KeyInput) -> bool {
    match key.code {
        KeyCode::Char(c) => is_digit_char(c) && (c != '0' || pre.count is Some),
        _ => false,
    }
}

pub open spec fn extended_count(pre: App, key: KeyInput) -> int {
    match key.code {
        KeyCode::Char(c) => (match pre.count {
            Some(n) => n as int,
            None => 0,
        }) * 10 + (c as int - '0' as int),
        _ => 0,
    }
}

/// The count that a command takes (1 when none was typed).
pub open spec fn count_of(app: App) -> usize {
    match app.count {
        Some(c) => c,
        None => 1,
    }
}

/// Whether taking the count clears the status line.
pub open spec fn count_clears(app: App) -> bool {
    count_of(app) > 1 || app.status_expiry is None
}

/// Whether taking an optional count clears the status line.
pub open spec fn optional_count_clears(app: App) -> bool {
    app.count is Some && (app.count->0 > 1 || app.status_expiry is None)
}

/// The keys of line motions and seeks.
pub open spec fn is_motion_key(key: KeyInput) -> bool {
    is_char(key, 'j') || key.code == KeyCode::Down || is_char(key, 'k') || key.code == KeyCode::Up
        || is_char(key, 'h') || is_char(key, 'l') || is_char(key, 'g') || is_char(key, 'G')
}

pub open spec fn page_rows(app: App) -> int {
    if app.playlist_visible_height > 1 {
        app.playlist_visible_height as int
    } else {
        1
    }
}

pub open spec fn is_page_down(key: KeyInput) -> bool {
    key.code == KeyCode::PageDown || key.code == KeyCode::Right || is_char(key, 'd')
}

pub open spec fn is_page_up(key: KeyInput) -> bool {
    key.code == KeyCode::PageUp || key.code == KeyCode::Left || is_char(key, 'u')
}

/// Page down by `count` screens (after the count is taken): the selection
/// moves as far (at most to the last row) and keeps its row on screen,
/// without scrolling past the end.
pub open spec fn paged_down(m: App, count: usize) -> App {
    let len = m.filtered_indices@.len();
    let visible = page_rows(m);
    let remaining: int = if len > m.selected_index + 1 {
        len - (m.selected_index + 1)
    } else {
        0
    };
    let jump = if visible * count < remaining {
        visible * count
    } else {
        remaining
    };
    if jump > 0 {
        let relative = m.selected_index - m.scroll_offset;
        let sel = m.selected_index + jump;
        let off = if sel > relative {
            sel - relative
        } else {
            0
        };
        let max_scroll: int = if len > visible {
            len - visible
        } else {
            0
        };
        App {
            selected_index: sel as usize,
            scroll_offset: (if off < max_scroll {
                off
            } else {
                max_scroll
            }) as usize,
            ..m
        }
    } else {
        m
    }
}

/// Page up by `count` screens (after the count is taken).
pub open spec fn paged_up(m: App, count: usize) -> App {
    let visible = page_rows(m);
    let jump = if visible * count < m.selected_index {
        visible * count
    } else {
        m.selected_index as int
    };
    if jump > 0 {
        let relative = m.selected_index - m.scroll_offset;
        let sel = m.selected_index - jump;
        App {
            selected_index: sel as usize,
            scroll_offset: (if sel > relative {
                sel - relative
            } else {
                0
            }) as usize,
            ..m
        }
    } else {
        m
    }
}

/// `post` is `pre` with all songs listed (in library order) and the search
/// cleared; the playing song is selected when listed, else the first row.
pub open spec fn search_cleared(pre: App, post: App) -> bool {
    let m = App {
        filtered_indices: post.filtered_indices,
        search_query: post.search_query,
        search_cursor: 0,
        ..pre
    };
    &&& post.filtered_indices@ == all_indices(pre.songs@.len())
    &&& post.search_query@.len() == 0
    &&& if playing_listed(m) {
        post == scrolled(
            App {
                selected_index: crate::app::app::first_index_of(
                    m.filtered_indices@,
                    m.current_song_index->0,
                ) as usize,
                ..m
            },
        )
    } else {
        post == App { selected_index: 0, scroll_offset: 0, ..m }
    }
}

/// `post` is `pre` after a key that the normal mode handles as a command
/// (the count prefix aside), before the count display is tidied.
pub open spec fn normal_command(pre: App, key: KeyInput, now: u64, mid: App, action: Action) -> bool {
    let len = pre.filtered_indices@.len();
    if is_char(key, 'q') || (is_char(key, 'c') && key.mods == KeyMods::Control) {
        action == Action::Quit && mid == pre
    } else if is_char(key, 'j') || key.code == KeyCode::Down {
        action == Action::Nothing && exists|m1: App|
            count_consumed(pre, m1, count_clears(pre)) && mid == if count_of(pre) > 1 {
                moved_down_by(m1, count_of(pre))
            } else {
                moved_down(m1)
            }
    } else if is_char(key, 'k') || key.code == KeyCode::Up {
        action == Action::Nothing && exists|m1: App|
            count_consumed(pre, m1, count_clears(pre)) && mid == if count_of(pre) > 1 {
                moved_up_by(m1, count_of(pre))
            } else {
                moved_up(m1)
            }
    } else if is_char(key, 'h') {
        action == Action::Seek { forward: false } && mid == App { count: None, ..pre }
    } else if is_char(key, 'l') {
        action == Action::Seek { forward: true } && mid == App { count: None, ..pre }
    } else if is_char(key, 'g') {
        action == Action::Nothing && exists|m1: App|
            count_consumed(pre, m1, count_clears(pre)) && mid == if count_of(pre) > 1 {
                went_to_line(m1, count_of(pre))
            } else {
                App { selected_index: 0, scroll_offset: 0, ..m1 }
            }
    } else if is_char(key, 'G') {
        let sel: int = if len > 0 {
            len - 1
        } else {
            0
        };
        let h: int = if pre.playlist_visible_height > 0 {
            pre.playlist_visible_height - 1
        } else {
            0
        };
        action == Action::Nothing && mid == App {
            count: None,
            selected_index: sel as usize,
            scroll_offset: (if sel > h {
                sel - h
            } else {
                0
            }) as usize,
            ..pre
        }
    } else if is_page_down(key) {
        action == Action::Nothing && exists|m1: App|
            count_consumed(pre, m1, count_clears(pre)) && mid == paged_down(m1, count_of(pre))
    } else if is_page_up(key) {
        action == Action::Nothing && exists|m1: App|
            count_consumed(pre, m1, count_clears(pre)) && mid == paged_up(m1, count_of(pre))
    } else if is_char(key, '`') || is_char(key, '\'') {
        action == Action::Nothing && if pre.current_song_index is None {
            status_set(pre, mid, "没有正在播放的歌曲"@, now)
        } else if playing_listed(pre) {
            let m1 = scrolled(
                App {
                    selected_index: crate::app::app::first_index_of(
                        pre.filtered_indices@,
                        pre.current_song_index->0,
                    ) as usize,
                    ..pre
                },
            );
            if m1.selected_index == pre.selected_index && len > 0 {
                status_set(m1, mid, "当前歌曲不在显示列表中"@, now)
            } else {
                mid == m1
            }
        } else if len > 0 {
            status_set(pre, mid, "当前歌曲不在显示列表中"@, now)
        } else {
            mid == pre
        }
    } else if key.code == KeyCode::Enter {
        exists|m1: App|
            #[trigger] count_consumed(
                pre,
                m1,
                optional_count_clears(pre),
            ) && match pre.count {
                Some(c) => if c > len {
                    action == Action::Nothing && status_set(
                        m1,
                        mid,
                        "超出范围 (共"@ + dec(len) + "首)"@,
                        now,
                    )
                } else {
                    action == Action::Play && mid == went_to_line(m1, c)
                },
                None => action == Action::Play && mid == m1,
            }
    } else if is_char(key, ' ') {
        action == Action::TogglePause && mid == pre
    } else if is_char(key, 'n') {
        action == Action::Next && mid == pre
    } else if is_char(key, 'p') {
        action == Action::Prev && mid == pre
    } else if is_char(key, '+') || is_char(key, '=') {
        action == Action::VolumeUp && mid == pre
    } else if is_char(key, '-') {
        action == Action::VolumeDown && mid == pre
    } else if is_char(key, 'f') && key.mods == KeyMods::Control {
        let m = search_mode_next(pre.search_mode);
        action == Action::Nothing && status_set(
            App { search_mode: m, ..pre },
            mid,
            "搜索字段: "@ + search_mode_name(m),
            now,
        )
    } else if is_char(key, '/') || is_char(key, 'f') {
        action == Action::Nothing && mid.search_query@.len() == 0 && mid == App {
            mode: Mode::Search,
            search_query: mid.search_query,
            search_cursor: 0,
            ..pre
        }
    } else if is_char(key, 'F') {
        action == Action::Nothing && exists|m1: App|
            search_cleared(pre, m1) && status_set(m1, mid, "已清除搜索"@, now)
    } else if is_char(key, 'r') && key.mods == KeyMods::Plain {
        let m = play_mode_next(pre.play_mode);
        action == Action::Nothing && status_set(
            App { play_mode: m, ..pre },
            mid,
            play_mode_name(m),
            now,
        )
    } else if is_char(key, 't') {
        action == Action::Nothing && sort_cycled(pre, mid, now)
    } else if is_char(key, 'T') {
        action == Action::Nothing && mid.theme_color_input@ == pre.config.themecolor@
            && mid.status_message@ == "输入主题色 (6位十六进制, 如 56B6C2)"@ && mid == App {
            theme_color_input: mid.theme_color_input,
            theme_color_cursor: pre.config.themecolor@.len() as usize,
            mode: Mode::Theme,
            status_message: mid.status_message,
            status_expiry: None,
            ..pre
        }
    } else if is_char(key, 'R') {
        action == Action::Nothing && status_set(
            App { mode: Mode::ConfirmRefresh, ..pre },
            mid,
            "确认重新扫描媒体库？ (y/n)"@,
            now,
        )
    } else if is_char(key, '?') {
        action == Action::Nothing && mid == App { mode: Mode::Help, ..pre }
    } else if is_char(key, 's') {
        action == Action::Stop && mid == pre
    } else if is_char(key, 'S') {
        action == Action::OpenSwitchCache && mid == pre
    } else {
        action == Action::Nothing && mid == pre
    }
}

/// The count display is tidied after a command: a count left over with no
/// timed message is dropped, with its display.
pub open spec fn count_tidied(mid: App, post: App) -> bool {
    if mid.count is Some && mid.status_expiry is None {
        post.status_message@.len() == 0 && post == App {
            count: None,
            status_message: post.status_message,
            ..mid
        }
    } else {
        post == mid
    }
}

/// A key in normal mode.
pub open spec fn normal_handled(pre: App, key: KeyInput, now: u64, post: App, action: Action) -> bool {
    if extends_count(pre, key) {
        let n = extended_count(pre, key);
        action == Action::Nothing && post.status_message@ == dec(n as nat) && post == App {
            count: Some(n as usize),
            status_message: post.status_message,
            status_expiry: None,
            ..pre
        }
    } else if key.code == KeyCode::Esc && pre.count is Some {
        action == Action::Nothing && post.status_message@.len() == 0 && post == App {
            count: None,
            status_message: post.status_message,
            ..pre
        }
    } else if key.code == KeyCode::Backspace && pre.count is Some {
        let v = pre.count->0 / 10;
        action == Action::Nothing && post.status_message@ == (if v == 0 {
            Seq::<char>::empty()
        } else {
            dec(v as nat)
        }) && post == App {
            count: if v == 0 {
                None
            } else {
                Some(v)
            },
            status_message: post.status_message,
            status_expiry: None,
            ..pre
        }
    } else {
        exists|mid: App|
            normal_command(pre, key, now, mid, action) && if action == Action::Nothing {
                count_tidied(mid, post)
            } else {
                post == mid
            }
    }
}

/// A key in search mode, before the live filter.
pub open spec fn search_edit(pre: App, key: KeyInput, now: u64, mid: App) -> bool {
    let len = pre.search_query@.len();
    let cur = pre.search_cursor;
    match key.code {
        KeyCode::Esc => exists|m1: App|
            search_cleared(pre, m1) && mid.status_message@.len() == 0 && mid == App {
                mode: Mode::Normal,
                status_message: mid.status_message,
                status_expiry: None,
                ..m1
            },
        KeyCode::Enter => exists|m1: App| filter_applied(pre, m1) && mid == App { mode: Mode::Normal, ..m1 },
        KeyCode::Backspace => if cur > 0 {
            mid.search_query@ == pre.search_query@.remove(cur - 1) && mid == App {
                search_query: mid.search_query,
                search_cursor: (cur - 1) as usize,
                ..pre
            }
        } else {
            mid == pre
        },
        KeyCode::Delete => if cur < len {
            mid.search_query@ == pre.search_query@.remove(cur as int) && mid == App {
                search_query: mid.search_query,
                ..pre
            }
        } else {
            mid == pre
        },
        KeyCode::Left => mid == if cur > 0 {
            App { search_cursor: (cur - 1) as usize, ..pre }
        } else {
            pre
        },
        KeyCode::Right => mid == if cur < len {
            App { search_cursor: (cur + 1) as usize, ..pre }
        } else {
            pre
        },
        KeyCode::Home => mid == App { search_cursor: 0, ..pre },
        KeyCode::End => mid == App { search_cursor: len as usize, ..pre },
        KeyCode::Char(c) => if c == 'f' && key.mods == KeyMods::Control {
            let m = search_mode_next(pre.search_mode);
            status_set(App { search_mode: m, ..pre }, mid, "搜索字段: "@ + search_mode_name(m), now)
        } else {
            mid.search_query@ == pre.search_query@.insert(cur as int, c) && mid == App {
                search_query: mid.search_query,
                search_cursor: (cur + 1) as usize,
                ..pre
            }
        },
        _ => mid == App { count: None, ..pre },
    }
}

/// A key in search mode: the edit, then the live filter while the query
/// is not empty.
pub open spec fn search_handled(pre: App, key: KeyInput, now: u64, post: App) -> bool {
    exists|mid: App|
        search_edit(pre, key, now, mid) && if mid.mode == Mode::Search
            && mid.search_query@.len() > 0 {
            filter_applied(mid, post)
        } else {
            post == mid
        }
}

/// A key while a rescan waits for confirmation.
pub open spec fn confirm_handled(pre: App, key: KeyInput, now: u64, post: App, action: Action) -> bool {
    if is_char(key, 'y') || is_char(key, 'Y') {
        action == Action::StartScan && post == App { mode: Mode::Normal, ..pre }
    } else if is_char(key, 'n') || is_char(key, 'N') || key.code == KeyCode::Esc {
        action == Action::Nothing && status_set(
            App { mode: Mode::Normal, ..pre },
            post,
            "已取消"@,
            now,
        )
    } else {
        action == Action::Nothing && post == App { count: None, ..pre }
    }
}

/// The longest colour input: six digits, seven with a leading `#`.
pub open spec fn theme_max_len(input: Seq<char>) -> nat {
    if input.len() > 0 && input[0] == '#' {
        7
    } else {
        6
    }
}

/// A key in theme colour mode.
pub open spec fn theme_handled(pre: App, key: KeyInput, now: u64, post: App, action: Action) -> bool {
    let len = pre.theme_color_input@.len();
    let cur = pre.theme_color_cursor;
    match key.code {
        KeyCode::Esc => action == Action::Nothing && post.theme_color_input@.len() == 0
            && post.status_message@.len() == 0 && post == App {
            theme_color_input: post.theme_color_input,
            theme_color_cursor: 0,
            mode: Mode::Normal,
            status_message: post.status_message,
            status_expiry: None,
            ..pre
        },
        KeyCode::Enter => {
            let hex = color_text(pre.theme_color_input@);
            &&& post.theme_color_input@.len() == 0
            &&& post.theme_color_cursor == 0
            &&& post.mode == Mode::Normal
            &&& if hex.len() == 0 {
                &&& action == Action::SaveConfig
                &&& post.config.themecolor@.len() == 0
                &&& post.config == crate::config::Config {
                    themecolor: post.config.themecolor,
                    ..pre.config
                }
                &&& post.status_message@ == "主题色已恢复默认"@
                &&& post == App {
                    config: post.config,
                    theme_color_input: post.theme_color_input,
                    theme_color_cursor: 0,
                    mode: Mode::Normal,
                    status_message: post.status_message,
                    status_expiry: Some(expiry_after(now)),
                    ..pre
                }
            } else if hex6(hex) is Some {
                &&& action == Action::SaveConfig
                &&& post.config.themecolor@ == hex
                &&& post.config == crate::config::Config {
                    themecolor: post.config.themecolor,
                    ..pre.config
                }
                &&& post.status_message@ == "主题色已更新: #"@ + hex
                &&& post == App {
                    config: post.config,
                    theme_color_input: post.theme_color_input,
                    theme_color_cursor: 0,
                    mode: Mode::Normal,
                    status_message: post.status_message,
                    status_expiry: Some(expiry_after(now)),
                    ..pre
                }
            } else {
                &&& action == Action::Nothing
                &&& post.status_message@ == "无效颜色值, 需要6位十六进制 (如 56B6C2)"@
                &&& post == App {
                    theme_color_input: post.theme_color_input,
                    theme_color_cursor: 0,
                    mode: Mode::Normal,
                    status_message: post.status_message,
                    status_expiry: None,
                    ..pre
                }
            }
        },
        KeyCode::Backspace => action == Action::Nothing && if cur > 0 {
            post.theme_color_input@ == pre.theme_color_input@.remove(cur - 1) && post == App {
                theme_color_input: post.theme_color_input,
                theme_color_cursor: (cur - 1) as usize,
                ..pre
            }
        } else {
            post == pre
        },
        KeyCode::Delete => action == Action::Nothing && if cur < len {
            post.theme_color_input@ == pre.theme_color_input@.remove(cur as int) && post == App {
                theme_color_input: post.theme_color_input,
                ..pre
            }
        } else {
            post == pre
        },
        KeyCode::Left => action == Action::Nothing && post == if cur > 0 {
            App { theme_color_cursor: (cur - 1) as usize, ..pre }
        } else {
            pre
        },
        KeyCode::Right => action == Action::Nothing && post == if cur < len {
            App { theme_color_cursor: (cur + 1) as usize, ..pre }
        } else {
            pre
        },
        KeyCode::Home => action == Action::Nothing && post == App { theme_color_cursor: 0, ..pre },
        KeyCode::End => action == Action::Nothing && post == App {
            theme_color_cursor: len as usize,
            ..pre
        },
        KeyCode::Char(c) => action == Action::Nothing && if (hex_value(c) is Some || c == '#')
            && len < theme_max_len(pre.theme_color_input@) {
            post.theme_color_input@ == pre.theme_color_input@.insert(cur as int, c) && post == App {
                theme_color_input: post.theme_color_input,
                theme_color_cursor: (cur + 1) as usize,
                ..pre
            }
        } else {
            post == pre
        },
        _ => action == Action::Nothing && post == pre,
    }
}

/// A key while choosing a cached folder.
pub open spec fn switch_handled(pre: App, key: KeyInput, post: App, action: Action) -> bool {
    let n = pre.cached_folders@.len();
    let sel = pre.cached_folders_selected;
    if key.code == KeyCode::Esc {
        action == Action::Nothing && post == App { mode: Mode::Normal, ..pre }
    } else if key.code == KeyCode::Enter {
        &&& action == if sel < n {
            Action::SwitchFolder(sel)
        } else {
            Action::Nothing
        }
        &&& post == App { mode: Mode::Normal, ..pre }
    } else if is_char(key, 'j') || key.code == KeyCode::Down {
        action == Action::Nothing && post == if n > 0 {
            App { cached_folders_selected: ((sel + 1) % (n as int)) as usize, ..pre }
        } else {
            pre
        }
    } else if is_char(key, 'k') || key.code == KeyCode::Up {
        action == Action::Nothing && post == if n > 0 {
            App {
                cached_folders_selected: (if sel == 0 {
                    n - 1
                } else {
                    sel - 1
                }) as usize,
                ..pre
            }
        } else {
            pre
        }
    } else {
        action == Action::Nothing && post == pre
    }
}

/// What a key does, by mode.
pub open spec fn key_handled(pre: App, key: KeyInput, now: u64, post: App, action: Action) -> bool {
    match pre.mode {
        Mode::Normal => normal_handled(pre, key, now, post, action),
        Mode::Search => action == Action::Nothing && search_handled(pre, key, now, post),
        Mode::ConfirmRefresh => confirm_handled(pre, key, now, post, action),
        Mode::Help => action == Action::Nothing && post == App { mode: Mode::Normal, ..pre },
        Mode::Theme => theme_handled(pre, key, now, post, action),
        Mode::SwitchCache => switch_handled(pre, key, post, action),
    }
}

/// The states in which a key would overflow a number or index past the end
/// of a text, which the player does not handle: a count prefix beyond
/// `usize`, a page jump of more rows than `usize` holds or one made while
/// the list is scrolled past the selection, a go-to-line count of 0, a
/// text cursor past the end of its text, a folder choice at `usize::MAX`.
pub open spec fn key_in_range(pre: App, key: KeyInput) -> bool {
    match pre.mode {
        Mode::Normal => {
            let len = pre.filtered_indices@.len();
            let c = count_of(pre);
            &&& extends_count(pre, key) ==> extended_count(pre, key) <= usize::MAX
            &&& (!extends_count(pre, key) && is_page_down(key)) ==> {
                &&& pre.selected_index < usize::MAX
                &&& page_rows(pre) * c <= usize::MAX
                &&& (len > pre.selected_index + 1 && c > 0) ==> pre.scroll_offset
                    <= pre.selected_index
            }
            &&& (!extends_count(pre, key) && is_page_up(key)) ==> {
                &&& page_rows(pre) * c <= usize::MAX
                &&& (pre.selected_index > 0 && c > 0) ==> pre.scroll_offset <= pre.selected_index
            }
            &&& (key.code == KeyCode::Enter && pre.count == Some(0usize)) ==> len == 0
        },
        Mode::Search => match key.code {
            KeyCode::Backspace => pre.search_cursor <= pre.search_query@.len(),
            KeyCode::Char(c) => !(c == 'f' && key.mods == KeyMods::Control) ==> pre.search_cursor
                <= pre.search_query@.len(),
            _ => true,
        },
        Mode::Theme => match key.code {
            KeyCode::Backspace => pre.theme_color_cursor <= pre.theme_color_input@.len(),
            KeyCode::Char(c) => pre.theme_color_cursor <= pre.theme_color_input@.len(),
            _ => true,
        },
        Mode::SwitchCache => pre.cached_folders_selected < usize::MAX,
        _ => true,
    }
}

// ---------------------------------------------------------------------------
// The handler
// ---------------------------------------------------------------------------

impl InputHandler {
    pub fn new() -> (h: Self) {
        InputHandler
    }

    /// Whether `handle` can take `key` in the state `app`: no count, page
    /// jump or cursor that overflows or runs past the end of its text
    /// (`key_in_range`).
    pub fn can_handle(&self, app: &App, key: KeyInput) -> (b: bool)
        ensures
            b == key_in_range(*app, key),
    {
        match app.mode {
            Mode::Normal => {
                let len = app.filtered_indices.len();
                let c: usize = match app.count {
                    Some(n) => n,
                    None => 1,
                };
                if let KeyCode::Char(ch) = key.code {
                    if let Some(d) = digit_value(ch) {
                        if ch != '0' || app.count.is_some() {
                            let base: usize = match app.count {
                                Some(n) => n,
                                None => 0,
                            };
                            return match base.checked_mul(10) {
                                Some(t) => t.checked_add(d).is_some(),
                                None => false,
                            };
                        }
                    }
                }
                let rows: usize = if app.playlist_visible_height > 1 {
                    app.playlist_visible_height
                } else {
                    1
                };
                let rows_fit = rows.checked_mul(c).is_some();
                let code = key.code;
                if code == KeyCode::PageDown || code == KeyCode::Right || code == KeyCode::Char('d') {
                    return app.selected_index < usize::MAX && rows_fit && (!(app.selected_index
                        < usize::MAX && len > app.selected_index + 1 && c > 0)
                        || app.scroll_offset <= app.selected_index);
                }
                if code == KeyCode::PageUp || code == KeyCode::Left || code == KeyCode::Char('u') {
                    return rows_fit && (!(app.selected_index > 0 && c > 0) || app.scroll_offset
                        <= app.selected_index);
                }
                if code == KeyCode::Enter && app.count == Some(0usize) {
                    return len == 0;
                }
                true
            },
            Mode::Search => {
                let n = char_count(&app.search_query);
                match key.code {
                    KeyCode::Backspace => app.search_cursor <= n,
                    KeyCode::Char(ch) => (ch == 'f' && key.mods == KeyMods::Control)
                        || app.search_cursor <= n,
                    _ => true,
                }
            },
            Mode::Theme => {
                let n = char_count(&app.theme_color_input);
                match key.code {
                    KeyCode::Backspace => app.theme_color_cursor <= n,
                    KeyCode::Char(_) => app.theme_color_cursor <= n,
                    _ => true,
                }
            },
            Mode::SwitchCache => app.cached_folders_selected < usize::MAX,
            _ => true,
        }
    }

    /// Handle a key press at time `now_ms` (milliseconds on the player's
    /// clock). The state changes as `key_handled` says; the returned action
    /// is for the caller to carry out. After carrying out an action other
    /// than `Nothing` in normal mode, the caller calls `App::finish_normal_key`.
    pub fn handle(&self, app: &mut App, key: KeyInput, now_ms: u64) -> (action: Action)
        requires
            key_in_range(*old(app), key),
        ensures
            key_handled(*old(app), key, now_ms, *final(app), action),
    {
        match app.mode {
            Mode::Normal => self.handle_normal(app, key, now_ms),
            Mode::Search => {
                self.handle_search(app, key, now_ms);
                Action::Nothing
            },
            Mode::ConfirmRefresh => self.handle_confirm_refresh(app, key, now_ms),
            Mode::Help => {
                app.mode = Mode::Normal;
                Action::Nothing
            },
            Mode::Theme => self.handle_theme_color(app, key, now_ms),
            Mode::SwitchCache => self.handle_switch_cache(app, key),
        }
    }

    fn handle_normal(&self, app: &mut App, key: KeyInput, now_ms: u64) -> (action: Action)
        requires
            old(app).mode == Mode::Normal,
            key_in_range(*old(app), key),
        ensures
            normal_handled(*old(app), key, now_ms, *final(app), action),
    {
        let ghost pre = *app;
        // A digit extends the count prefix.
        if let KeyCode::Char(c) = key.code {
            if let Some(d) = digit_value(c) {
                if d != 0 || app.count.is_some() {
                    let base = match app.count {
                        Some(n) => n,
                        None => 0,
                    };
                    let n = base * 10 + d;
                    app.count = Some(n);
                    app.status_message = decimal_string(n);
                    app.status_expiry = None;
                    return Action::Nothing;
                }
            }
        }
        // Esc cancels the count.
        if key.code == KeyCode::Esc && app.count.is_some() {
            app.count = None;
            app.status_message = String::new();
            return Action::Nothing;
        }
        // Backspace deletes the count's last digit.
        if key.code == KeyCode::Backspace && app.count.is_some() {
            let v = match app.count {
                Some(n) => n / 10,
                None => 0,
            };
            if v == 0 {
                app.count = None;
                app.status_message = String::new();
            } else {
                app.count = Some(v);
                app.status_message = decimal_string(v);
            }
            app.status_expiry = None;
            return Action::Nothing;
        }
        let action = self.normal_command(app, key, now_ms);
        let ghost mid = *app;
        if action == Action::Nothing {
            app.finish_normal_key();
        }
        assert(normal_command(pre, key, now_ms, mid, action));
        action
    }

    fn normal_command(&self, app: &mut App, key: KeyInput, now_ms: u64) -> (action: Action)
        requires
            old(app).mode == Mode::Normal,
            key_in_range(*old(app), key),
            !extends_count(*old(app), key),
        ensures
            normal_command(*old(app), key, now_ms, *final(app), action),
    {
        let code = key.code;
        if code == KeyCode::Char('q') || (code == KeyCode::Char('c') && key.mods == KeyMods::Control) {
            return Action::Quit;
        }
        if code == KeyCode::Char('j') || code == KeyCode::Down || code == KeyCode::Char('k') || code
            == KeyCode::Up || code == KeyCode::Char('h') || code == KeyCode::Char('l') || code
            == KeyCode::Char('g') || code == KeyCode::Char('G') {
            return self.normal_motion(app, key, now_ms);
        }
        if code == KeyCode::PageDown || code == KeyCode::Right || code == KeyCode::Char('d')
            || code == KeyCode::PageUp || code == KeyCode::Left || code == KeyCode::Char('u') {
            return self.normal_page(app, key, now_ms);
        }
        if code == KeyCode::Char('`') || code == KeyCode::Char('\'') || code == KeyCode::Enter {
            return self.normal_jump(app, key, now_ms);
        }
        self.normal_other(app, key, now_ms)
    }

    /// Line motions and seeks: `j` `k` `h` `l` `g` `G` and the arrows.
    fn normal_motion(&self, app: &mut App, key: KeyInput, now_ms: u64) -> (action: Action)
        requires
            !(is_char(key, 'q') || (is_char(key, 'c') && key.mods == KeyMods::Control)),
            is_motion_key(key),
        ensures
            normal_command(*old(app), key, now_ms, *final(app), action),
    {
        let ghost pre = *app;
        let code = key.code;
        if code == KeyCode::Char('j') || code == KeyCode::Down {
            let count = app.consume_count();
            let ghost m1 = *app;
            if count > 1 {
                app.move_down_by(count);
            } else {
                app.move_down();
            }
            assert(count_consumed(pre, m1, count_clears(pre)));
            return Action::Nothing;
        }
        if code == KeyCode::Char('k') || code == KeyCode::Up {
            let count = app.consume_count();
            let ghost m1 = *app;
            if count > 1 {
                app.move_up_by(count);
            } else {
                app.move_up();
            }
            assert(count_consumed(pre, m1, count_clears(pre)));
            return Action::Nothing;
        }
        if code == KeyCode::Char('h') {
            app.count = None;
            return Action::Seek { forward: false };
        }
        if code == KeyCode::Char('l') {
            app.count = None;
            return Action::Seek { forward: true };
        }
        if code == KeyCode::Char('g') {
            let count = app.consume_count();
            let ghost m1 = *app;
            if count > 1 {
                app.goto_line(count);
            } else {
                app.selected_index = 0;
                app.scroll_offset = 0;
            }
            assert(count_consumed(pre, m1, count_clears(pre)));
            return Action::Nothing;
        }
        app.count = None;
        let len = app.filtered_indices.len();
        app.selected_index = if len > 0 {
            len - 1
        } else {
            0
        };
        let h = if app.playlist_visible_height > 0 {
            app.playlist_visible_height - 1
        } else {
            0
        };
        app.scroll_offset = if app.selected_index > h {
            app.selected_index - h
        } else {
            0
        };
        Action::Nothing
    }

    /// Paging by screens: page keys, the side arrows, `d` and `u`.
    fn normal_page(&self, app: &mut App, key: KeyInput, now_ms: u64) -> (action: Action)
        requires
            old(app).mode == Mode::Normal,
            key_in_range(*old(app), key),
            !extends_count(*old(app), key),
            !(is_char(key, 'q') || (is_char(key, 'c') && key.mods == KeyMods::Control)),
            !is_motion_key(key),
            is_page_down(key) || is_page_up(key),
        ensures
            normal_command(*old(app), key, now_ms, *final(app), action),
    {
        let ghost pre = *app;
        let down = key.code == KeyCode::PageDown || key.code == KeyCode::Right || key.code
            == KeyCode::Char('d');
        let count = app.consume_count();
        let ghost m1 = *app;
        if down {
            app.page_down(count);
        } else {
            app.page_up(count);
        }
        assert(count_consumed(pre, m1, count_clears(pre)));
        Action::Nothing
    }

    /// Jumps to the playing song (`` ` `` and `'`) and playing the selected
    /// or counted row (Enter).
    fn normal_jump(&self, app: &mut App, key: KeyInput, now_ms: u64) -> (action: Action)
        requires
            old(app).mode == Mode::Normal,
            key_in_range(*old(app), key),
            !(is_char(key, 'q') || (is_char(key, 'c') && key.mods == KeyMods::Control)),
            !is_motion_key(key),
            !is_page_down(key),
            !is_page_up(key),
            is_char(key, '`') || is_char(key, '\'') || key.code == KeyCode::Enter,
        ensures
            normal_command(*old(app), key, now_ms, *final(app), action),
    {
        let ghost pre = *app;
        if key.code != KeyCode::Enter {
            if app.current_song_index.is_none() {
                app.set_status(String::from_str("没有正在播放的歌曲"), now_ms);
            } else {
                let prev = app.selected_index;
                app.scroll_to_playing();
                if app.selected_index == prev && app.filtered_indices.len() > 0 {
                    app.set_status(String::from_str("当前歌曲不在显示列表中"), now_ms);
                }
            }
            return Action::Nothing;
        }
        let opt = app.consume_count_optional();
        let ghost m1 = *app;
        assert(count_consumed(pre, m1, optional_count_clears(pre)));
        if let Some(count) = opt {
            let total = app.filtered_indices.len();
            if count > total {
                let mut msg: Vec<char> = Vec::new();
                push_str(&mut msg, "超出范围 (共");
                let n = dec_chars(total as u64);
                push_all(&mut msg, &n);
                push_str(&mut msg, "首)");
                app.set_status(string_from_chars(&msg), now_ms);
                return Action::Nothing;
            }
            app.goto_line(count);
        }
        Action::Play
    }

    /// The remaining commands: playback, volume, search, play and sort
    /// modes, the theme colour, rescanning, help and cache switching.
    fn normal_other(&self, app: &mut App, key: KeyInput, now_ms: u64) -> (action: Action)
        requires
            !(is_char(key, 'q') || (is_char(key, 'c') && key.mods == KeyMods::Control)),
            !is_motion_key(key),
            !is_page_down(key),
            !is_page_up(key),
            !(is_char(key, '`') || is_char(key, '\'') || key.code == KeyCode::Enter),
        ensures
            normal_command(*old(app), key, now_ms, *final(app), action),
    {
        let ghost pre = *app;
        let code = key.code;
        let control = key.mods == KeyMods::Control;
        if code == KeyCode::Char(' ') {
            return Action::TogglePause;
        }
        if code == KeyCode::Char('n') {
            return Action::Next;
        }
        if code == KeyCode::Char('p') {
            return Action::Prev;
        }
        if code == KeyCode::Char('+') || code == KeyCode::Char('=') {
            return Action::VolumeUp;
        }
        if code == KeyCode::Char('-') {
            return Action::VolumeDown;
        }
        if code == KeyCode::Char('f') && control {
            app.search_mode = app.search_mode.next();
            let mut msg: Vec<char> = Vec::new();
            push_str(&mut msg, "搜索字段: ");
            push_str(&mut msg, app.search_mode.as_str());
            app.set_status(string_from_chars(&msg), now_ms);
            return Action::Nothing;
        }
        if code == KeyCode::Char('/') || code == KeyCode::Char('f') {
            app.mode = Mode::Search;
            app.search_query = String::new();
            app.search_cursor = 0;
            return Action::Nothing;
        }
        if code == KeyCode::Char('F') {
            app.clear_search();
            let ghost m1 = *app;
            app.set_status(String::from_str("已清除搜索"), now_ms);
            assert(search_cleared(pre, m1));
            return Action::Nothing;
        }
        if code == KeyCode::Char('r') && key.mods == KeyMods::Plain {
            app.play_mode = app.play_mode.next();
            let name = app.play_mode.as_str();
            app.set_status(String::from_str(name), now_ms);
            return Action::Nothing;
        }
        if code == KeyCode::Char('t') {
            app.cycle_sort(now_ms);
            return Action::Nothing;
        }
        if code == KeyCode::Char('T') {
            app.theme_color_input = app.config.themecolor.clone();
            app.theme_color_cursor = char_count(&app.theme_color_input);
            app.mode = Mode::Theme;
            app.set_status(String::from_str("输入主题色 (6位十六进制, 如 56B6C2)"), now_ms);
            app.status_expiry = None;
            return Action::Nothing;
        }
        if code == KeyCode::Char('R') {
            app.mode = Mode::ConfirmRefresh;
            app.set_status(String::from_str("确认重新扫描媒体库？ (y/n)"), now_ms);
            return Action::Nothing;
        }
        if code == KeyCode::Char('?') {
            app.mode = Mode::Help;
            return Action::Nothing;
        }
        if code == KeyCode::Char('s') {
            return Action::Stop;
        }
        if code == KeyCode::Char('S') {
            return Action::OpenSwitchCache;
        }
        Action::Nothing
    }

    fn handle_search(&self, app: &mut App, key: KeyInput, now_ms: u64)
        requires
            old(app).mode == Mode::Search,
            key_in_range(*old(app), key),
        ensures
            search_handled(*old(app), key, now_ms, *final(app)),
    {
        let ghost pre = *app;
        match key.code {
            KeyCode::Esc => {
                app.clear_search();
                let ghost m1 = *app;
                assert(search_cleared(pre, m1));
                app.mode = Mode::Normal;
                app.status_message = String::new();
                app.status_expiry = None;
            },
            KeyCode::Enter => {
                app.apply_filter();
                let ghost m1 = *app;
                assert(filter_applied(pre, m1));
                app.mode = Mode::Normal;
            },
            KeyCode::Backspace => {
                if app.search_cursor > 0 {
                    app.search_query = with_char_removed(&app.search_query, app.search_cursor - 1);
                    app.search_cursor = app.search_cursor - 1;
                }
            },
            KeyCode::Delete => {
                if app.search_cursor < char_count(&app.search_query) {
                    app.search_query = with_char_removed(&app.search_query, app.search_cursor);
                }
            },
            KeyCode::Left => {
                if app.search_cursor > 0 {
                    app.search_cursor = app.search_cursor - 1;
                }
            },
            KeyCode::Right => {
                if app.search_cursor < char_count(&app.search_query) {
                    app.search_cursor = app.search_cursor + 1;
                }
            },
            KeyCode::Home => {
                app.search_cursor = 0;
            },
            KeyCode::End => {
                app.search_cursor = char_count(&app.search_query);
            },
            KeyCode::Char(c) => {
                if c == 'f' && key.mods == KeyMods::Control {
                    app.search_mode = app.search_mode.next();
                    let mut msg: Vec<char> = Vec::new();
                    push_str(&mut msg, "搜索字段: ");
                    push_str(&mut msg, app.search_mode.as_str());
                    app.set_status(string_from_chars(&msg), now_ms);
                } else {
                    app.search_query = with_char_inserted(&app.search_query, app.search_cursor, c);
                    let n = char_count(&app.search_query);
                    assert(app.search_cursor < n);
                    app.search_cursor = app.search_cursor + 1;
                }
            },
            _ => {
                app.count = None;
            },
        }
        let ghost mid = *app;
        assert(search_edit(pre, key, now_ms, mid));
        if app.mode == Mode::Search && !app.search_query.as_str().is_empty() {
            app.apply_filter();
        }
    }

    fn handle_confirm_refresh(&self, app: &mut App, key: KeyInput, now_ms: u64) -> (action: Action)
        ensures
            confirm_handled(*old(app), key, now_ms, *final(app), action),
    {
        let code = key.code;
        if code == KeyCode::Char('y') || code == KeyCode::Char('Y') {
            app.mode = Mode::Normal;
            Action::StartScan
        } else if code == KeyCode::Char('n') || code == KeyCode::Char('N') || code == KeyCode::Esc {
            app.mode = Mode::Normal;
            app.set_status(String::from_str("已取消"), now_ms);
            Action::Nothing
        } else {
            app.count = None;
            Action::Nothing
        }
    }

    fn handle_theme_color(&self, app: &mut App, key: KeyInput, now_ms: u64) -> (action: Action)
        requires
            old(app).mode == Mode::Theme,
            key_in_range(*old(app), key),
        ensures
            theme_handled(*old(app), key, now_ms, *final(app), action),
    {
        match key.code {
            KeyCode::Esc => {
                app.theme_color_input = String::new();
                app.theme_color_cursor = 0;
                app.mode = Mode::Normal;
                app.status_message = String::new();
                app.status_expiry = None;
                Action::Nothing
            },
            KeyCode::Enter => {
                let chars = str_to_chars(app.theme_color_input.as_str());
                let (a, b) = color_text_range(&chars);
                let action = if a == b {
                    app.config.themecolor = String::new();
                    app.set_status(String::from_str("主题色已恢复默认"), now_ms);
                    Action::SaveConfig
                } else if hex6_range(&chars, a, b).is_some() {
                    let hex = crate::text::string_from_range(&chars, a, b);
                    let mut msg: Vec<char> = Vec::new();
                    push_str(&mut msg, "主题色已更新: #");
                    crate::text::push_slice(&mut msg, &chars, a, b);
                    app.config.themecolor = hex;
                    app.set_status(string_from_chars(&msg), now_ms);
                    Action::SaveConfig
                } else {
                    app.set_status(String::from_str("无效颜色值, 需要6位十六进制 (如 56B6C2)"), now_ms);
                    app.status_expiry = None;
                    Action::Nothing
                };
                app.theme_color_input = String::new();
                app.theme_color_cursor = 0;
                app.mode = Mode::Normal;
                action
            },
            KeyCode::Backspace => {
                if app.theme_color_cursor > 0 {
                    app.theme_color_input = with_char_removed(
                        &app.theme_color_input,
                        app.theme_color_cursor - 1,
                    );
                    app.theme_color_cursor = app.theme_color_cursor - 1;
                }
                Action::Nothing
            },
            KeyCode::Delete => {
                if app.theme_color_cursor < char_count(&app.theme_color_input) {
                    app.theme_color_input = with_char_removed(
                        &app.theme_color_input,
                        app.theme_color_cursor,
                    );
                }
                Action::Nothing
            },
            KeyCode::Left => {
                if app.theme_color_cursor > 0 {
                    app.theme_color_cursor = app.theme_color_cursor - 1;
                }
                Action::Nothing
            },
            KeyCode::Right => {
                if app.theme_color_cursor < char_count(&app.theme_color_input) {
                    app.theme_color_cursor = app.theme_color_cursor + 1;
                }
                Action::Nothing
            },
            KeyCode::Home => {
                app.theme_color_cursor = 0;
                Action::Nothing
            },
            KeyCode::End => {
                app.theme_color_cursor = char_count(&app.theme_color_input);
                Action::Nothing
            },
            KeyCode::Char(c) => {
                if hex_digit(c).is_some() || c == '#' {
                    let chars = str_to_chars(app.theme_color_input.as_str());
                    let max_len: usize = if chars.len() > 0 && chars[0] == '#' {
                        7
                    } else {
                        6
                    };
                    if chars.len() < max_len {
                        app.theme_color_input = with_char_inserted(
                            &app.theme_color_input,
                            app.theme_color_cursor,
                            c,
                        );
                        app.theme_color_cursor = app.theme_color_cursor + 1;
                    }
                }
                Action::Nothing
            },
            _ => Action::Nothing,
        }
    }

    fn handle_switch_cache(&self, app: &mut App, key: KeyInput) -> (action: Action)
        requires
            old(app).mode == Mode::SwitchCache,
            key_in_range(*old(app), key),
        ensures
            switch_handled(*old(app), key, *final(app), action),
    {
        let code = key.code;
        let n = app.cached_folders.len();
        if code == KeyCode::Esc {
            app.mode = Mode::Normal;
            Action::Nothing
        } else if code == KeyCode::Enter {
            let sel = app.cached_folders_selected;
            app.mode = Mode::Normal;
            if sel < n {
                Action::SwitchFolder(sel)
            } else {
                Action::Nothing
            }
        } else if code == KeyCode::Char('j') || code == KeyCode::Down {
            if n > 0 {
                app.cached_folders_selected = (app.cached_folders_selected + 1) % n;
            }
            Action::Nothing
        } else if code == KeyCode::Char('k') || code == KeyCode::Up {
            if n > 0 {
                app.cached_folders_selected = if app.cached_folders_selected == 0 {
                    n - 1
                } else {
                    app.cached_folders_selected - 1
                };
            }
            Action::Nothing
        } else {
            Action::Nothing
        }
    }
}

/// Law: Esc in search mode leaves the search: the query is cleared, every
/// song is listed again (in library order), the songs are kept and the
/// status line is cleared.
pub proof fn lemma_search_escape(pre: App, key: KeyInput, now: u64, post: App, action: Action)
    requires
        pre.mode == Mode::Search,
        key.code == KeyCode::Esc,
        key_handled(pre, key, now, post, action),
    ensures
        action == Action::Nothing,
        post.mode == Mode::Normal,
        post.search_query@.len() == 0,
        post.search_cursor == 0,
        post.filtered_indices@ == all_indices(pre.songs@.len()),
        post.songs == pre.songs,
        post.status_message@.len() == 0,
        post.status_expiry is None,
{
    let mid = choose|mid: App|
        search_edit(pre, key, now, mid) && if mid.mode == Mode::Search && mid.search_query@.len()
            > 0 {
            filter_applied(mid, post)
        } else {
            post == mid
        };
    let m1 = choose|m1: App|
        search_cleared(pre, m1) && mid.status_message@.len() == 0 && mid == (App {
            mode: Mode::Normal,
            status_message: mid.status_message,
            status_expiry: None,
            ..m1
        });
    assert(post == mid);
}

/// Law: typing a character in search mode inserts it at the cursor, moves
/// the cursor past it, and filters the list at once: the songs whose
/// searched field holds the new query, in sort order, the first selected.
pub proof fn lemma_search_typing(pre: App, key: KeyInput, now: u64, post: App, action: Action, c: char)
    requires
        pre.mode == Mode::Search,
        key.code == KeyCode::Char(c),
        !(c == 'f' && key.mods == KeyMods::Control),
        pre.search_cursor <= pre.search_query@.len() < usize::MAX,
        key_handled(pre, key, now, post, action),
    ensures
        action == Action::Nothing,
        post.mode == Mode::Search,
        post.search_query@ == pre.search_query@.insert(pre.search_cursor as int, c),
        post.search_cursor == pre.search_cursor + 1,
        post.filtered_indices@ == stable_sorted(
            filter_result(pre.songs@, pre.search_mode, post.search_query@),
            song_keys(pre.songs@, pre.sort_mode),
        ),
        post.selected_index == 0,
        post.scroll_offset == 0,
        post.songs == pre.songs,
{
    let mid = choose|mid: App|
        search_edit(pre, key, now, mid) && if mid.mode == Mode::Search && mid.search_query@.len()
            > 0 {
            filter_applied(mid, post)
        } else {
            post == mid
        };
    assert(mid.search_query@.len() > 0);
    assert(filter_applied(mid, post));
}

/// Law: the theme colour that Enter saves is the colour typed: the saved
/// setting reads (with `parse_hex_color`) as the input did, or it is empty
/// when the input held no colour text (the default colours).
pub proof fn lemma_saved_theme_reads_back(pre: App, key: KeyInput, now: u64, post: App, action: Action)
    requires
        theme_handled(pre, key, now, post, action),
        key.code == KeyCode::Enter,
        action == Action::SaveConfig,
    ensures
        post.config.themecolor@.len() == 0 <==> color_text(pre.theme_color_input@).len() == 0,
        post.config.themecolor@.len() > 0 ==> {
            &&& parse_hex_color_spec(pre.theme_color_input@) is Some
            &&& parse_hex_color_spec(post.config.themecolor@) == parse_hex_color_spec(
                pre.theme_color_input@,
            )
        },
{
    let hex = color_text(pre.theme_color_input@);
    if hex.len() > 0 {
        lemma_accepted_color_reads_back(pre.theme_color_input@);
    }
}

/// The status line after a seek of ten seconds.
pub open spec fn seek_message(forward: bool) -> Seq<char> {
    if forward {
        ">> +10秒"@
    } else {
        "<< -10秒"@
    }
}

impl App {
    /// Page down by `count` screens.
    fn page_down(&mut self, count: usize)
        requires
            old(self).selected_index < usize::MAX,
            page_rows(*old(self)) * count <= usize::MAX,
            (old(self).filtered_indices@.len() > old(self).selected_index + 1 && count > 0)
                ==> old(self).scroll_offset <= old(self).selected_index,
        ensures
            *final(self) == paged_down(*old(self), count),
    {
        let visible = if self.playlist_visible_height > 1 {
            self.playlist_visible_height
        } else {
            1
        };
        let len = self.filtered_indices.len();
        let remaining = if len > self.selected_index + 1 {
            len - (self.selected_index + 1)
        } else {
            0
        };
        let rows = visible * count;
        let jump = if rows < remaining {
            rows
        } else {
            remaining
        };
        if jump > 0 {
            let relative = self.selected_index - self.scroll_offset;
            self.selected_index = self.selected_index + jump;
            let off = if self.selected_index > relative {
                self.selected_index - relative
            } else {
                0
            };
            let max_scroll = if len > visible {
                len - visible
            } else {
                0
            };
            self.scroll_offset = if off < max_scroll {
                off
            } else {
                max_scroll
            };
        }
    }

    /// Page up by `count` screens.
    fn page_up(&mut self, count: usize)
        requires
            page_rows(*old(self)) * count <= usize::MAX,
            (old(self).selected_index > 0 && count > 0) ==> old(self).scroll_offset
                <= old(self).selected_index,
        ensures
            *final(self) == paged_up(*old(self), count),
    {
        let visible = if self.playlist_visible_height > 1 {
            self.playlist_visible_height
        } else {
            1
        };
        let rows = visible * count;
        let jump = if rows < self.selected_index {
            rows
        } else {
            self.selected_index
        };
        if jump > 0 {
            let relative = self.selected_index - self.scroll_offset;
            self.selected_index = self.selected_index - jump;
            self.scroll_offset = if self.selected_index > relative {
                self.selected_index - relative
            } else {
                0
            };
        }
    }

    /// List all songs in library order and clear the search; select the
    /// playing song when listed, else the first row.
    pub fn clear_search(&mut self)
        ensures
            search_cleared(*old(self), *final(self)),
    {
        self.search_query = String::new();
        self.search_cursor = 0;
        self.filtered_indices = index_range(self.songs.len());
        if !self.scroll_to_playing() {
            self.selected_index = 0;
            self.scroll_offset = 0;
        }
    }

    /// Tidy the count display after a normal-mode command has run (see
    /// `count_tidied`).
    pub fn finish_normal_key(&mut self)
        ensures
            count_tidied(*old(self), *final(self)),
    {
        if self.count.is_some() && self.status_expiry.is_none() {
            self.count = None;
            self.status_message = String::new();
        }
    }

    /// Report a seek that the player carried out.
    pub fn seek_done(&mut self, forward: bool, now_ms: u64)
        ensures
            status_set(*old(self), *final(self), seek_message(forward), now_ms),
    {
        let msg = if forward {
            String::from_str(">> +10秒")
        } else {
            String::from_str("<< -10秒")
        };
        self.set_status(msg, now_ms);
    }

    /// Enter cache switching once the cached folders are read: report when
    /// there are none.
    pub fn open_switch_cache(&mut self, now_ms: u64)
        ensures
            old(self).cached_folders@.len() == 0 ==> status_set(
                *old(self),
                *final(self),
                "没有可用的缓存"@,
                now_ms,
            ),
            old(self).cached_folders@.len() > 0 ==> *final(self) == (App {
                mode: Mode::SwitchCache,
                ..*old(self)
            }),
    {
        if self.cached_folders.len() == 0 {
            self.set_status(String::from_str("没有可用的缓存"), now_ms);
        } else {
            self.mode = Mode::SwitchCache;
        }
    }
}

} // verus!
