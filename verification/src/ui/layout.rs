//! How the screen is divided: the playlist, the lyrics panel under it, the
//! message line and the status bar.
use crate::ui::popup::Area;
use ratatui::layout::{Constraint, Direction, Layout, Rect};
use vstd::prelude::*;

verus! {

/// The parts of the screen.
#[derive(Debug, Clone, Copy, PartialEq, Eq, Structural)]
pub struct LayoutChunks {
    pub playlist: Area,
    pub lyrics: Area,
    pub message: Area,
    pub statusbar: Area,
}

/// What ratatui's `Layout::split` gives for a vertical split of `area` into a
/// first part of at least `min` rows followed by parts of `lengths` rows.
pub uninterp spec fn vertical_split(area: Area, min: u16, lengths: Seq<u16>) -> Seq<Area>;

/// `Layout::split` of `area`, vertically, with `Constraint::Min(min)` then
/// `Constraint::Length(l)` for each of `lengths`. It gives one part per
/// constraint; where the parts go is `vertical_split` of the arguments (the
/// constraint solver is not restated here).
#[verifier::external_body]
fn split_vertical(area: Area, min: u16, lengths: &Vec<u16>) -> (parts: Vec<Area>)
    ensures
        parts@ == vertical_split(area, min, lengths@),
        parts@.len() == lengths@.len() + 1,
{
    let constraints: Vec<Constraint> =
        std::iter::once(Constraint::Min(min)).chain(lengths.iter().map(|&l| Constraint::Length(l))).collect();
    let rect = Rect { x: area.x, y: area.y, width: area.width, height: area.height };
    Layout::default().direction(Direction::Vertical).constraints(constraints).split(rect).iter().map(
        |r| Area { x: r.x, y: r.y, width: r.width, height: r.height },
    ).collect()
}

/// The rows under the content: the message line, then the status bar.
pub open spec fn bottom_lines() -> Seq<u16> {
    seq![1u16, 1u16]
}

/// The lyrics panel's height (three lines and its border).
pub open spec fn lyrics_rows() -> Seq<u16> {
    seq![4u16]
}

/// The screen `area` split into content (at least five rows), the message
/// line and the status bar; the content split into the playlist (at least
/// five rows) and the lyrics panel of four rows.
pub open spec fn screen_layout(area: Area) -> LayoutChunks {
    let main = vertical_split(area, 5, bottom_lines());
    let content = vertical_split(main[0], 5, lyrics_rows());
    LayoutChunks { playlist: content[0], lyrics: content[1], message: main[1], statusbar: main[2] }
}

pub fn create_layout(area: Area) -> (c: LayoutChunks)
    ensures
        c == screen_layout(area),
{
    let mut bottom: Vec<u16> = Vec::new();
    bottom.push(1);
    bottom.push(1);
    assert(bottom@ =~= bottom_lines());
    let main = split_vertical(area, 5, &bottom);
    let mut lyrics: Vec<u16> = Vec::new();
    lyrics.push(4);
    assert(lyrics@ =~= lyrics_rows());
    let content = split_vertical(main[0], 5, &lyrics);
    LayoutChunks { playlist: content[0], lyrics: content[1], message: main[1], statusbar: main[2] }
}

} // verus!
