//! The bars at the bottom of the screen: the status bar, the message line,
//! the search input and the theme colour input.
use crate::app::app::App;
use crate::app::mode::{mode_name, play_mode_icon, PlayMode};
use crate::text::{push_all, push_str, str_to_chars, string_from_chars};
use crate::ui::utils::{
    compact_duration, display_width, format_duration_compact, text_width, truncate_to_width,
    truncated,
};
use vstd::prelude::*;

verus! {

/// The status bar: the mode on the left, the playing song and its progress
/// on the right.
pub struct StatusbarWidget<'a> {
    pub app: &'a App,
}

/// The parts of the status bar line, left to right.
#[derive(Debug)]
pub struct StatusLine {
    /// The mode's name between spaces.
    pub mode_text: String,
    /// The play order's icon after a space; empty in sequential order.
    pub play_mode_text: String,
    /// Spaces that push the song information to the right edge.
    pub padding: usize,
    pub song_info: String,
}

pub open spec fn shown_mode(app: App) -> Seq<char> {
    " "@ + mode_name(app.mode) + " "@
}

pub open spec fn shown_play_mode(app: App) -> Seq<char> {
    if app.play_mode != PlayMode::Sequential {
        " "@ + play_mode_icon(app.play_mode)
    } else {
        Seq::empty()
    }
}

/// The progress, and before it the playing song's title cut to 30 columns.
pub open spec fn shown_song_info(app: App) -> Seq<char> {
    let progress = compact_duration(app.current_pos) + "/"@ + compact_duration(app.duration);
    match app.current_song_index {
        Some(idx) => if idx < app.songs@.len() {
            truncated(app.songs@[idx as int].title@, 30) + " "@ + progress
        } else {
            progress
        },
        None => progress,
    }
}

/// The spaces between the left part (and one separating space) and the
/// song information in a bar `width` columns wide; none when they do not fit.
pub open spec fn bar_padding(app: App, width: u16) -> int {
    let used = display_width(shown_mode(app)) + display_width(shown_play_mode(app)) + 1
        + display_width(shown_song_info(app));
    if width > used {
        width - used
    } else {
        0
    }
}

fn str_width(s: &String) -> (w: usize)
    ensures
        w == display_width(s@),
{
    let chars = str_to_chars(s.as_str());
    text_width(&chars)
}

impl<'a> StatusbarWidget<'a> {
    pub fn new(app: &'a App) -> (w: Self)
        ensures
            w.app == app,
    {
        StatusbarWidget { app }
    }

    /// The status bar line for a bar `width` columns wide.
    pub fn line(&self, width: u16) -> (l: StatusLine)
        ensures
            l.mode_text@ == shown_mode(*self.app),
            l.play_mode_text@ == shown_play_mode(*self.app),
            l.song_info@ == shown_song_info(*self.app),
            l.padding == bar_padding(*self.app, width),
    {
        let app = self.app;
        let mut mode: Vec<char> = Vec::new();
        push_str(&mut mode, " ");
        push_str(&mut mode, app.mode.as_str());
        push_str(&mut mode, " ");
        let mut icon: Vec<char> = Vec::new();
        if app.play_mode != PlayMode::Sequential {
            push_str(&mut icon, " ");
            push_str(&mut icon, app.play_mode.icon());
        }
        let mut info: Vec<char> = Vec::new();
        if let Some(idx) = app.current_song_index {
            if idx < app.songs.len() {
                let name = truncate_to_width(app.songs[idx].title.as_str(), 30);
                let name_chars = str_to_chars(name.as_str());
                push_all(&mut info, &name_chars);
                push_str(&mut info, " ");
            }
        }
        let pos = format_duration_compact(app.current_pos);
        let dur = format_duration_compact(app.duration);
        push_str(&mut info, pos.as_str());
        push_str(&mut info, "/");
        push_str(&mut info, dur.as_str());
        let mode_text = string_from_chars(&mode);
        let play_mode_text = string_from_chars(&icon);
        let song_info = string_from_chars(&info);
        assert(mode_text@ =~= shown_mode(*app));
        assert(play_mode_text@ =~= shown_play_mode(*app));
        assert(song_info@ =~= shown_song_info(*app));
        let a = str_width(&mode_text);
        let b = str_width(&play_mode_text);
        let c = str_width(&song_info);
        let w = width as usize;
        // The widths are added with checks: a sum past `usize::MAX` is wider
        // than any bar, which leaves no padding.
        let padding = match a.checked_add(b) {
            Some(ab) => match ab.checked_add(1) {
                Some(ab1) => match ab1.checked_add(c) {
                    Some(used) => if w > used {
                        w - used
                    } else {
                        0
                    },
                    None => 0,
                },
                None => 0,
            },
            None => 0,
        };
        StatusLine { mode_text, play_mode_text, padding, song_info }
    }
}

/// The message line above the status bar.
pub struct MessageWidget<'a> {
    pub app: &'a App,
}

impl<'a> MessageWidget<'a> {
    pub fn new(app: &'a App) -> (w: Self)
        ensures
            w.app == app,
    {
        MessageWidget { app }
    }

    /// The line shown: the status message after a space.
    pub fn text(&self) -> (t: String)
        ensures
            t@ == " "@ + self.app.status_message@,
    {
        let mut out: Vec<char> = Vec::new();
        push_str(&mut out, " ");
        push_str(&mut out, self.app.status_message.as_str());
        string_from_chars(&out)
    }
}

/// The search input, drawn over the status bar while typing a query.
pub struct SearchWidget<'a> {
    pub query: &'a str,
}

impl<'a> SearchWidget<'a> {
    pub fn new(query: &'a str) -> (w: Self)
        ensures
            w.query == query,
    {
        SearchWidget { query }
    }
}

/// The theme colour input, drawn over the status bar.
pub struct ThemeWidget<'a> {
    pub input: &'a str,
    pub cursor: usize,
}

/// The cells of an input showing `input` with the cursor at `cursor`
/// (clamped to the end), each a character and whether the cursor is on it:
/// one per character, and a blank cell after the text when the cursor is at
/// its end.
pub open spec fn input_cells(input: Seq<char>, cursor: usize) -> Seq<(char, bool)> {
    let c: int = if cursor < input.len() {
        cursor as int
    } else {
        input.len() as int
    };
    let chars = Seq::new(input.len(), |i: int| (input[i], i == c));
    if c == input.len() {
        chars.push((' ', true))
    } else {
        chars
    }
}

impl<'a> ThemeWidget<'a> {
    pub fn new(input: &'a str, cursor: usize) -> (w: Self)
        ensures
            w.input == input,
            w.cursor == cursor,
    {
        ThemeWidget { input, cursor }
    }

    /// The cells to draw after the label.
    pub fn cells(&self) -> (cells: Vec<(char, bool)>)
        ensures
            cells@ == input_cells(self.input@, self.cursor),
    {
        let chars = str_to_chars(self.input);
        let c = if self.cursor < chars.len() {
            self.cursor
        } else {
            chars.len()
        };
        let mut cells: Vec<(char, bool)> = Vec::new();
        let mut i: usize = 0;
        while i < chars.len()
            invariant
                i <= chars.len(),
                chars@ == self.input@,
                c == (if self.cursor < chars@.len() {
                    self.cursor as int
                } else {
                    chars@.len() as int
                }),
                cells@.len() == i,
                forall|j: int|
                    0 <= j < i ==> #[trigger] cells@[j] == (chars@[j], j == c),
            decreases chars.len() - i,
        {
            cells.push((chars[i], i == c));
            i = i + 1;
        }
        if c == chars.len() {
            cells.push((' ', true));
        }
        assert(cells@ =~= input_cells(self.input@, self.cursor));
        cells
    }
}

} // verus!
