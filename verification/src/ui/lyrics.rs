//! What the lyrics panel shows at a playback position.
use crate::lyrics::parser::{LineView, LyricsLine, LyricsWord};
use crate::lyrics::{ceiling_line, floor_line, LyricsManager};
use vstd::prelude::*;

verus! {

/// The content of the lyrics panel.
#[derive(Debug)]
pub enum LyricsDisplay {
    /// A word-timed line: each word with whether it has started. `upcoming`
    /// marks a line that has not started yet, which is drawn dimmed.
    Words { words: Vec<(String, bool)>, upcoming: bool },
    /// A line with a translation: the first text over the second.
    Pair { first: String, second: String },
    /// A single-language line, with a preview of the next plain line.
    Single { current: String, next: Option<String> },
    /// Before the first line: the first plain line, dimmed.
    Upcoming { text: String },
    /// Nothing to show.
    NoLyrics,
}

/// `shown` lists the words of `words` and whether each has started at
/// `position`.
pub open spec fn words_shown(
    shown: Seq<(String, bool)>,
    words: Seq<(u64, Seq<char>)>,
    position: u64,
) -> bool {
    &&& shown.len() == words.len()
    &&& forall|i: int|
        0 <= i < words.len() ==> (#[trigger] shown[i]).0@ == words[i].1 && shown[i].1 == (
        words[i].0 <= position)
}

/// `d` is what the panel shows with `current` the line being sung (if any)
/// and `next` the line after it, at `position`.
pub open spec fn display_of(
    current: Option<LineView>,
    next: Option<LineView>,
    position: u64,
    d: LyricsDisplay,
) -> bool {
    match current {
        Some(LineView::Timed { words, .. }) => d matches LyricsDisplay::Words { words: w, upcoming }
            && !upcoming && words_shown(w@, words, position),
        Some(LineView::Plain { text, .. }) => if text.len() >= 2 {
            d matches LyricsDisplay::Pair { first, second } && first@ == text[0] && second@
                == text[1]
        } else {
            d matches LyricsDisplay::Single { current: c, next: n } && c@ == text[0] && match next {
                Some(LineView::Plain { text: nt, .. }) => if nt.len() > 0 {
                    n matches Some(s) && s@ == nt[0]
                } else {
                    n is None
                },
                _ => n is None,
            }
        },
        None => match next {
            Some(LineView::Plain { text, .. }) => if text.len() > 0 {
                d matches LyricsDisplay::Upcoming { text: t } && t@ == text[0]
            } else {
                d is NoLyrics
            },
            Some(LineView::Timed { words, .. }) => d matches LyricsDisplay::Words {
                words: w,
                upcoming,
            } && upcoming && words_shown(w@, words, 0),
            None => d is NoLyrics,
        },
    }
}

fn words_at(words: &Vec<LyricsWord>, position: u64) -> (shown: Vec<(String, bool)>)
    ensures
        words_shown(shown@, words@.map_values(|w: LyricsWord| w@), position),
{
    let ghost view = words@.map_values(|w: LyricsWord| w@);
    let mut shown: Vec<(String, bool)> = Vec::new();
    let mut i: usize = 0;
    while i < words.len()
        invariant
            i <= words.len(),
            view == words@.map_values(|w: LyricsWord| w@),
            shown@.len() == i,
            forall|j: int|
                0 <= j < i ==> (#[trigger] shown@[j]).0@ == view[j].1 && shown@[j].1 == (
                view[j].0 <= position),
        decreases words.len() - i,
    {
        let w = &words[i];
        shown.push((w.text.clone(), w.start <= position));
        i = i + 1;
    }
    shown
}

fn first_text(text: &Vec<String>) -> (s: String)
    requires
        text@.len() > 0,
    ensures
        s@ == text@[0]@,
{
    text[0].clone()
}

/// The panel's content for the current line, the next line and the
/// playback position. A plain current line holds at least one text.
pub fn lyrics_display(current: Option<&LyricsLine>, next: Option<&LyricsLine>, position: u64) -> (d: LyricsDisplay)
    requires
        current matches Some(l) ==> (l@ matches LineView::Plain { text, .. } ==> text.len() > 0),
    ensures
        display_of(
            match current {
                Some(l) => Some(l@),
                None => None,
            },
            match next {
                Some(l) => Some(l@),
                None => None,
            },
            position,
            d,
        ),
{
    match current {
        Some(LyricsLine::Timed { words, .. }) => {
            LyricsDisplay::Words { words: words_at(words, position), upcoming: false }
        },
        Some(LyricsLine::Plain { text, .. }) => {
            if text.len() >= 2 {
                LyricsDisplay::Pair { first: text[0].clone(), second: text[1].clone() }
            } else {
                let n = match next {
                    Some(LyricsLine::Plain { text: nt, .. }) => if nt.len() > 0 {
                        Some(first_text(nt))
                    } else {
                        None
                    },
                    _ => None,
                };
                LyricsDisplay::Single { current: first_text(text), next: n }
            }
        },
        None => match next {
            Some(LyricsLine::Plain { text, .. }) => if text.len() > 0 {
                LyricsDisplay::Upcoming { text: first_text(text) }
            } else {
                LyricsDisplay::NoLyrics
            },
            Some(LyricsLine::Timed { words, .. }) => LyricsDisplay::Words {
                words: words_at(words, 0),
                upcoming: true,
            },
            None => LyricsDisplay::NoLyrics,
        },
    }
}


/// The lyrics panel at a playback position.
pub struct LyricsWidget<'a> {
    pub lyrics: &'a LyricsManager,
    /// The playback position in milliseconds.
    pub position: u64,
}

impl<'a> LyricsWidget<'a> {
    pub fn new(lyrics: &'a LyricsManager, position: u64) -> (w: Self)
        ensures
            w.lyrics == lyrics,
            w.position == position,
    {
        LyricsWidget { lyrics, position }
    }

    /// What the panel shows: the content for the line being sung and the
    /// line after it.
    pub fn content(&self) -> (d: LyricsDisplay)
        ensures
            display_of(
                floor_line(self.lyrics.lines(), self.position),
                ceiling_line(self.lyrics.lines(), self.position),
                self.position,
                d,
            ),
    {
        self.lyrics.display(self.position)
    }
}

} // verus!
