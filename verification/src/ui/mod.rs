//! What the widgets show: formatting, column layout, and the rows and lines
//! they draw.
pub mod utils;
pub mod playlist;
pub mod statusbar;
pub mod popup;
pub mod lyrics;
pub mod layout;

use crate::app::app::App;
use crate::app::mode::Mode;
use crate::lyrics::LyricsManager;
use vstd::prelude::*;

verus! {

/// What is drawn over the main screen, by mode.
#[derive(Debug, Clone, Copy, PartialEq, Eq, Structural)]
pub enum Overlay {
    /// Nothing over the main screen.
    Nothing,
    /// The search input over the status bar.
    Search,
    /// The theme colour input over the status bar.
    Theme,
    /// The help popup over the whole screen.
    Help,
}

pub open spec fn overlay_for(mode: Mode) -> Overlay {
    match mode {
        Mode::Search => Overlay::Search,
        Mode::Theme => Overlay::Theme,
        Mode::Help => Overlay::Help,
        _ => Overlay::Nothing,
    }
}

/// The screen of the player: its state and its lyrics.
pub struct Ui<'a> {
    pub app: &'a mut App,
    pub lyrics: &'a LyricsManager,
}

impl<'a> Ui<'a> {
    pub fn new(app: &'a mut App, lyrics: &'a LyricsManager) -> (ui: Self)
        ensures
            *ui.app == *old(app),
            ui.lyrics == lyrics,
    {
        Ui { app, lyrics }
    }

    /// Fit the playlist to its area of `height` rows, before it is drawn.
    pub fn fit_playlist(&mut self, height: u16)
        ensures
            final(self).app.playlist_visible_height == (if height >= 2 {
                height - 2
            } else {
                0
            }),
            *final(self).app == (App {
                playlist_visible_height: final(self).app.playlist_visible_height,
                ..*old(self).app
            }),
            final(self).lyrics == old(self).lyrics,
    {
        self.app.set_visible_height(height);
    }

    /// What goes over the main screen.
    pub fn overlay(&self) -> (o: Overlay)
        ensures
            o == overlay_for(old(self.app).mode),
    {
        match self.app.mode {
            Mode::Search => Overlay::Search,
            Mode::Theme => Overlay::Theme,
            Mode::Help => Overlay::Help,
            _ => Overlay::Nothing,
        }
    }
}

} // verus!
