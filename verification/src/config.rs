//! The player's saved settings.
use crate::app::mode::SortMode;
use vstd::prelude::*;

verus! {

/// Settings kept between runs (read from and written to `config.toml`).
#[derive(Debug, Clone)]
pub struct Config {
    /// Music folder to scan.
    pub music_folder: String,
    /// Path of the song that was playing at exit.
    pub last_song_path: String,
    /// Playback position of that song, in seconds.
    pub last_position_secs: u64,
    /// Theme colour as hex (`56B6C2` or `#56B6C2`); empty for the default colours.
    pub themecolor: String,
    /// Playlist order.
    pub sort_mode: SortMode,
}

impl Default for Config {
    fn default() -> (c: Self)
        ensures
            c.music_folder@ == Seq::<char>::empty(),
            c.last_song_path@ == Seq::<char>::empty(),
            c.last_position_secs == 0,
            c.themecolor@ == Seq::<char>::empty(),
            c.sort_mode == SortMode::Title,
    {
        Config {
            music_folder: String::new(),
            last_song_path: String::new(),
            last_position_secs: 0,
            themecolor: String::new(),
            sort_mode: SortMode::Title,
        }
    }
}

} // verus!
