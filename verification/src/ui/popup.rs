//! The popups drawn over the player: the keybinding help and the list of
//! cached music folders.
use crate::app::app::CachedFolder;
use crate::text::{dec, dec_chars, push_all, push_str, str_eq, str_to_chars, string_from_chars};
use vstd::prelude::*;
use vstd::string::StringSliceAdditionalSpecFns;
use vstd::utf8::{decode_utf8, encode_utf8, encode_utf8_decode_utf8, is_char_boundary};

verus! {

/// A rectangle of the screen, in cells.
#[derive(Debug, Clone, Copy, PartialEq, Eq, Structural)]
pub struct Area {
    pub x: u16,
    pub y: u16,
    pub width: u16,
    pub height: u16,
}

pub open spec fn sat_sub(a: int, b: int) -> int {
    if a > b {
        a - b
    } else {
        0
    }
}

pub open spec fn min_int(a: int, b: int) -> int {
    if a < b {
        a
    } else {
        b
    }
}

/// A `width` by `height` popup centred in `area`, cut to the area's size.
pub open spec fn centered(area: Area, width: u16, height: u16) -> Area {
    Area {
        x: (area.x + sat_sub(area.width as int, width as int) / 2) as u16,
        y: (area.y + sat_sub(area.height as int, height as int) / 2) as u16,
        width: min_int(width as int, area.width as int) as u16,
        height: min_int(height as int, area.height as int) as u16,
    }
}

/// The popup's corner stays on the screen's coordinates (`u16`).
pub open spec fn centering_fits(area: Area, width: u16, height: u16) -> bool {
    &&& area.x + sat_sub(area.width as int, width as int) / 2 <= u16::MAX
    &&& area.y + sat_sub(area.height as int, height as int) / 2 <= u16::MAX
}

pub fn centered_area(area: Area, width: u16, height: u16) -> (r: Area)
    requires
        centering_fits(area, width, height),
    ensures
        r == centered(area, width, height),
{
    let dx = if area.width > width {
        area.width - width
    } else {
        0
    };
    let dy = if area.height > height {
        area.height - height
    } else {
        0
    };
    Area {
        x: area.x + dx / 2,
        y: area.y + dy / 2,
        width: if width < area.width {
            width
        } else {
            area.width
        },
        height: if height < area.height {
            height
        } else {
            area.height
        },
    }
}

/// The keybinding help popup.
pub struct HelpWidget;

/// The help popup's size.
pub const HELP_WIDTH: u16 = 36;

pub const HELP_HEIGHT: u16 = 26;

impl HelpWidget {
    pub fn new() -> (w: Self) {
        HelpWidget
    }

    /// Where the help popup goes in `area`: 36 by 26 cells, centred.
    pub fn popup_area(&self, area: Area) -> (r: Area)
        requires
            centering_fits(area, HELP_WIDTH, HELP_HEIGHT),
        ensures
            r == centered(area, HELP_WIDTH, HELP_HEIGHT),
    {
        centered_area(area, HELP_WIDTH, HELP_HEIGHT)
    }
}

// ---------------------------------------------------------------------------
// The cached folder list
// ---------------------------------------------------------------------------

/// How many folders fit in a popup area `height` rows tall: a title line,
/// a blank line, a blank line, the hint line and the border take six.
pub open spec fn folders_fitting(height: u16) -> int {
    sat_sub(height as int, 6)
}

/// The first folder shown: the list scrolls so that the selection stays
/// in the middle, without scrolling past either end.
pub open spec fn folder_scroll(n: int, selected: int, max: int) -> int {
    if n <= max || max == 0 {
        0
    } else if selected < max / 2 {
        0
    } else if selected >= n - max / 2 {
        n - max
    } else {
        selected - max / 2
    }
}

/// The positions `[start, end)` of the folders shown.
pub open spec fn folder_window(n: int, selected: int, height: u16) -> (int, int) {
    let max = folders_fitting(height);
    let scroll = folder_scroll(n, selected, max);
    if max == 0 {
        (0, 0)
    } else if scroll + max >= n {
        (scroll, n)
    } else {
        (scroll, scroll + max)
    }
}

/// The folders shown among `n` cached folders, with `selected` chosen, in a
/// popup area `height` rows tall.
pub fn visible_folders(n: usize, selected: usize, height: u16) -> (r: (usize, usize))
    ensures
        r.0 == folder_window(n as int, selected as int, height).0,
        r.1 == folder_window(n as int, selected as int, height).1,
        r.0 <= r.1 <= n,
{
    let max: usize = if height > 6 {
        (height - 6) as usize
    } else {
        0
    };
    let scroll = if n <= max || max == 0 {
        0
    } else if selected < max / 2 {
        0
    } else if selected >= n - max / 2 {
        n - max
    } else {
        selected - max / 2
    };
    if max == 0 {
        (0, 0)
    } else if scroll >= n || n - scroll <= max {
        (scroll, n)
    } else {
        (scroll, scroll + max)
    }
}

/// How a folder path is shown: paths of more than 40 bytes (in UTF-8) keep
/// their last 37 bytes after `...`.
pub open spec fn shown_path(path: Seq<char>) -> Seq<char> {
    let bytes = encode_utf8(path);
    if bytes.len() > 40 {
        "..."@ + decode_utf8(bytes.skip(bytes.len() - 37))
    } else {
        path
    }
}

/// A path can be shortened where the cut falls between characters.
pub open spec fn path_cut_ok(path: Seq<char>) -> bool {
    let bytes = encode_utf8(path);
    bytes.len() > 40 ==> is_char_boundary(bytes, bytes.len() - 37)
}

/// The path as the folder list shows it. The cut is made at a byte
/// position; one that falls inside a character is not handled.
pub fn shorten_path(path: &str) -> (out: String)
    requires
        path_cut_ok(path@),
    ensures
        out@ == shown_path(path@),
{
    let bytes = path.as_bytes();
    let len = bytes.len();
    assert(bytes@ == encode_utf8(path@));
    if len > 40 {
        let (_, tail) = path.split_at(len - 37);
        let mut out: Vec<char> = Vec::new();
        push_str(&mut out, "...");
        push_str(&mut out, tail);
        proof {
            encode_utf8_decode_utf8(tail@);
            assert(tail.spec_bytes() =~= encode_utf8(path@).skip(len - 37));
        }
        string_from_chars(&out)
    } else {
        let chars = str_to_chars(path);
        string_from_chars(&chars)
    }
}

/// One line of the folder list.
#[derive(Debug)]
pub struct FolderLine {
    /// The path, the song count and, for the open folder, a marker.
    pub text: String,
    pub selected: bool,
    /// Whether this is the folder that is open.
    pub current: bool,
}

/// The text of a folder's line.
pub open spec fn folder_text(f: CachedFolder, current: Seq<char>) -> Seq<char> {
    shown_path(f.music_folder@) + " ("@ + dec(f.song_count as nat) + " 首)"@ + if f.music_folder@
        == current {
        " [当前]"@
    } else {
        Seq::empty()
    }
}

pub open spec fn folder_line_matches(
    folders: Seq<CachedFolder>,
    selected: usize,
    current: Seq<char>,
    pos: int,
    line: FolderLine,
) -> bool {
    &&& line.text@ == folder_text(folders[pos], current)
    &&& line.selected == (pos == selected)
    &&& line.current == (folders[pos].music_folder@ == current)
}

/// The cached folder list.
pub struct SwitchCacheWidget<'a> {
    pub folders: &'a Vec<CachedFolder>,
    pub selected: usize,
    pub current_folder: &'a str,
}

impl<'a> SwitchCacheWidget<'a> {
    pub fn new(folders: &'a Vec<CachedFolder>, selected: usize, current_folder: &'a str) -> (l: Self)
        ensures
            l.folders == folders,
            l.selected == selected,
            l.current_folder == current_folder,
    {
        SwitchCacheWidget { folders, selected, current_folder }
    }

    /// The lines of the folders shown in a popup area `height` rows tall.
    pub fn lines(&self, height: u16) -> (lines: Vec<FolderLine>)
        requires
            forall|i: int|
                0 <= i < self.folders@.len() ==> path_cut_ok(
                    #[trigger] self.folders@[i].music_folder@,
                ),
        ensures
            ({
                let w = folder_window(self.folders@.len() as int, self.selected as int, height);
                &&& lines@.len() == w.1 - w.0
                &&& forall|i: int|
                    0 <= i < lines@.len() ==> folder_line_matches(
                        self.folders@,
                        self.selected,
                        self.current_folder@,
                        w.0 + i,
                        #[trigger] lines@[i],
                    )
            }),
    {
        let (start, end) = visible_folders(self.folders.len(), self.selected, height);
        let mut lines: Vec<FolderLine> = Vec::new();
        let mut p = start;
        while p < end
            invariant
                start <= p <= end <= self.folders@.len(),
                lines@.len() == p - start,
                forall|i: int|
                    0 <= i < self.folders@.len() ==> path_cut_ok(
                        #[trigger] self.folders@[i].music_folder@,
                    ),
                forall|i: int|
                    0 <= i < lines@.len() ==> folder_line_matches(
                        self.folders@,
                        self.selected,
                        self.current_folder@,
                        start + i,
                        #[trigger] lines@[i],
                    ),
            decreases end - p,
        {
            let f = &self.folders[p];
            let is_current = str_eq(f.music_folder.as_str(), self.current_folder);
            let mut text: Vec<char> = Vec::new();
            let path = shorten_path(f.music_folder.as_str());
            push_str(&mut text, path.as_str());
            push_str(&mut text, " (");
            let count = dec_chars(f.song_count as u64);
            push_all(&mut text, &count);
            push_str(&mut text, " 首)");
            if is_current {
                push_str(&mut text, " [当前]");
            }
            assert(text@ =~= folder_text(self.folders@[p as int], self.current_folder@));
            lines.push(
                FolderLine {
                    text: string_from_chars(&text),
                    selected: p == self.selected,
                    current: is_current,
                },
            );
            p = p + 1;
        }
        lines
    }

    /// Where the popup goes in `area`: 50 columns wide (or the area's
    /// width), tall enough for the folders shown, four more lines and the
    /// border, centred.
    pub fn popup_area(&self, area: Area, shown: usize) -> (r: Area)
        requires
            shown + 6 <= u16::MAX,
            centering_fits(
                area,
                min_int(50, area.width as int) as u16,
                (shown + 6) as u16,
            ),
        ensures
            r == centered(area, min_int(50, area.width as int) as u16, (shown + 6) as u16),
    {
        let width: u16 = if 50 < area.width {
            50
        } else {
            area.width
        };
        centered_area(area, width, (shown + 6) as u16)
    }
}

} // verus!
