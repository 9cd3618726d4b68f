//! The song list: its column widths and the text of each visible row.
use crate::app::app::{App, Song};
use crate::text::{dec, dec_chars, pad_left, push_all, push_padded, push_str, string_from_chars};
use crate::ui::utils::{
    format_duration_wide, pad_to_width, padded_to_width, truncate_to_width, truncated,
    wide_duration,
};
use vstd::prelude::*;

verus! {

/// The widths of the text columns of the list, in display columns.
#[derive(Debug, Clone, Copy, PartialEq, Eq, Structural)]
pub struct ColumnWidths {
    pub title: usize,
    pub artist: usize,
    /// The album column, shown only in a wide list.
    pub album: Option<usize>,
}

pub open spec fn at_least(a: int, b: int) -> int {
    if a >= b {
        a
    } else {
        b
    }
}

/// The columns for a list `width` columns wide: the album column is shown
/// from 60 columns on; the fixed parts of a row (border, marker, number,
/// separators, duration) take 18 columns with it and 17 without, and the
/// rest is shared 2:1:2 (title, artist, album) or 3:2 (title, artist), each
/// column keeping a minimum width.
pub open spec fn columns_for(width: u16) -> ColumnWidths {
    let overhead: int = if width >= 60 {
        18
    } else {
        17
    };
    let avail: int = if width >= overhead {
        width - overhead
    } else {
        0
    };
    if width >= 60 {
        let tw = at_least(avail * 2 / 5, 8);
        let aw = at_least(avail / 5, 5);
        let rest: int = if avail >= tw + aw {
            avail - (tw + aw)
        } else {
            0
        };
        ColumnWidths { title: tw as usize, artist: aw as usize, album: Some(at_least(rest, 5) as usize) }
    } else {
        let tw = at_least(avail * 3 / 5, 10);
        ColumnWidths { title: tw as usize, artist: at_least(avail - tw, 5) as usize, album: None }
    }
}

/// Column widths for a list of `area_width` columns. Below 27 columns the
/// title's minimum width leaves no room for the artist column, which the
/// list does not handle.
pub fn column_widths(area_width: u16) -> (c: ColumnWidths)
    requires
        area_width >= 27,
    ensures
        c == columns_for(area_width),
{
    let show_album = area_width >= 60;
    let overhead: u16 = if show_album {
        18
    } else {
        17
    };
    let avail = (area_width - overhead) as usize;
    if show_album {
        let tw = if avail * 2 / 5 >= 8 {
            avail * 2 / 5
        } else {
            8
        };
        let aw = if avail / 5 >= 5 {
            avail / 5
        } else {
            5
        };
        let rest = if avail >= tw + aw {
            avail - (tw + aw)
        } else {
            0
        };
        ColumnWidths {
            title: tw,
            artist: aw,
            album: Some(
                if rest >= 5 {
                    rest
                } else {
                    5
                },
            ),
        }
    } else {
        let tw = if avail * 3 / 5 >= 10 {
            avail * 3 / 5
        } else {
            10
        };
        let aw = if avail - tw >= 5 {
            avail - tw
        } else {
            5
        };
        ColumnWidths { title: tw, artist: aw, album: None }
    }
}

/// What the marker column of a row shows.
#[derive(Debug, Clone, Copy, PartialEq, Eq, Structural)]
pub enum RowMarker {
    /// The song is loaded and playing.
    Playing,
    /// The song is loaded and paused.
    Paused,
    /// Any other song.
    Idle,
}

/// The text of one list row.
#[derive(Debug, Clone)]
pub struct PlaylistRow {
    pub marker: RowMarker,
    /// The 1-based list position, right-aligned in three columns, and a dot.
    pub number: String,
    pub title: String,
    pub artist: String,
    pub album: Option<String>,
    pub duration: String,
    /// Whether this is the selected row.
    pub selected: bool,
}

/// The song list of a player.
pub struct PlaylistWidget<'a> {
    pub app: &'a App,
}

/// The number column of the row at list position `d`.
pub open spec fn row_number(d: int) -> Seq<char> {
    pad_left(dec((d + 1) as nat), 3, ' ') + seq!['.']
}

/// A text cut and padded to exactly fill a column of `w` display columns.
pub open spec fn cell(s: Seq<char>, w: usize) -> Seq<char> {
    padded_to_width(truncated(s, w), w)
}

pub open spec fn row_marker(app: App, song_idx: usize) -> RowMarker {
    if app.current_song_index == Some(song_idx) {
        if app.is_playing {
            RowMarker::Playing
        } else {
            RowMarker::Paused
        }
    } else {
        RowMarker::Idle
    }
}

/// `row` is the row for list position `d` of `app` with columns `cols`.
pub open spec fn row_matches(app: App, cols: ColumnWidths, d: int, row: PlaylistRow) -> bool {
    let idx = app.filtered_indices@[d];
    let song = app.songs@[idx as int];
    &&& row.marker == row_marker(app, idx)
    &&& row.number@ == row_number(d)
    &&& row.title@ == cell(song.title@, cols.title)
    &&& row.artist@ == cell(song.artist@, cols.artist)
    &&& match cols.album {
        Some(w) => row.album matches Some(a) && a@ == cell(song.album@, w),
        None => row.album is None,
    }
    &&& row.duration@ == wide_duration(song.duration)
    &&& row.selected == (d == app.selected_index)
}

/// How many rows a list area `height` rows tall shows from the scroll
/// offset on (two rows go to the border).
pub open spec fn shown_count(app: App, height: u16) -> int {
    let len = app.filtered_indices@.len() as int;
    let room: int = if height >= 2 {
        height - 2
    } else {
        0
    };
    let left: int = if len > app.scroll_offset {
        len - app.scroll_offset
    } else {
        0
    };
    if left < room {
        left
    } else {
        room
    }
}

/// Every listed index names a song.
pub open spec fn indices_valid(app: App) -> bool {
    forall|j: int|
        0 <= j < app.filtered_indices@.len() ==> #[trigger] app.filtered_indices@[j]
            < app.songs@.len()
}

/// The list title: ` 歌曲列表 [n 首] `.
pub open spec fn list_title(n: nat) -> Seq<char> {
    " 歌曲列表 ["@ + dec(n) + " 首] "@
}

fn padded_cell(s: &String, w: usize) -> (out: String)
    ensures
        out@ == cell(s@, w),
{
    let t = truncate_to_width(s.as_str(), w);
    pad_to_width(t.as_str(), w)
}

impl<'a> PlaylistWidget<'a> {
    pub fn new(app: &'a App) -> (w: Self)
        ensures
            w.app == app,
    {
        PlaylistWidget { app }
    }

    /// The list's title.
    pub fn title(&self) -> (t: String)
        ensures
            t@ == list_title(self.app.filtered_indices@.len()),
    {
        let mut out: Vec<char> = Vec::new();
        push_str(&mut out, " 歌曲列表 [");
        let n = dec_chars(self.app.filtered_indices.len() as u64);
        push_all(&mut out, &n);
        push_str(&mut out, " 首] ");
        string_from_chars(&out)
    }

    fn row(&self, cols: ColumnWidths, d: usize) -> (row: PlaylistRow)
        requires
            d < self.app.filtered_indices@.len(),
            indices_valid(*self.app),
        ensures
            row_matches(*self.app, cols, d as int, row),
    {
        let app = self.app;
        let idx = app.filtered_indices[d];
        let song: &Song = &app.songs[idx];
        let marker = if app.current_song_index == Some(idx) {
            if app.is_playing {
                RowMarker::Playing
            } else {
                RowMarker::Paused
            }
        } else {
            RowMarker::Idle
        };
        let mut number: Vec<char> = Vec::new();
        let n = app.filtered_indices.len();
        assert(d + 1 <= n);
        let digits = dec_chars((d + 1) as u64);
        push_padded(&mut number, &digits, 3, ' ');
        number.push('.');
        assert(number@ =~= row_number(d as int));
        let album = match cols.album {
            Some(w) => Some(padded_cell(&song.album, w)),
            None => None,
        };
        PlaylistRow {
            marker,
            number: string_from_chars(&number),
            title: padded_cell(&song.title, cols.title),
            artist: padded_cell(&song.artist, cols.artist),
            album,
            duration: format_duration_wide(song.duration),
            selected: d == app.selected_index,
        }
    }

    /// The rows shown in a list area of `area_width` by `area_height`:
    /// those from the scroll offset on that fit inside the border.
    pub fn rows(&self, area_width: u16, area_height: u16) -> (rows: Vec<PlaylistRow>)
        requires
            area_width >= 27,
            indices_valid(*self.app),
        ensures
            rows@.len() == shown_count(*self.app, area_height),
            forall|i: int|
                0 <= i < rows@.len() ==> row_matches(
                    *self.app,
                    columns_for(area_width),
                    self.app.scroll_offset + i,
                    #[trigger] rows@[i],
                ),
    {
        let cols = column_widths(area_width);
        let len = self.app.filtered_indices.len();
        let room: usize = if area_height >= 2 {
            (area_height - 2) as usize
        } else {
            0
        };
        let start = self.app.scroll_offset;
        let left = if len > start {
            len - start
        } else {
            0
        };
        let count = if left < room {
            left
        } else {
            room
        };
        let mut rows: Vec<PlaylistRow> = Vec::new();
        let mut i: usize = 0;
        while i < count
            invariant
                i <= count,
                count == shown_count(*self.app, area_height),
                start == self.app.scroll_offset,
                count <= left,
                count == 0 || start + count <= len,
                left == if len > start {
                    len - start
                } else {
                    0
                },
                len == self.app.filtered_indices@.len(),
                cols == columns_for(area_width),
                indices_valid(*self.app),
                rows@.len() == i,
                forall|j: int|
                    0 <= j < i ==> row_matches(
                        *self.app,
                        cols,
                        self.app.scroll_offset + j,
                        #[trigger] rows@[j],
                    ),
            decreases count - i,
        {
            let r = self.row(cols, start + i);
            rows.push(r);
            i = i + 1;
        }
        rows
    }
}

} // verus!
