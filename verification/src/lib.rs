//! A terminal music player's library: LRC lyrics parsing and synchronisation,
//! the playlist model (filtering, sorting, navigation, scanning), key handling
//! and the layout arithmetic of its widgets.
use vstd::prelude::*;

pub mod text;
pub mod lyrics;
pub mod app;
pub mod ui;
pub mod config;
pub mod theme;
pub mod input;
