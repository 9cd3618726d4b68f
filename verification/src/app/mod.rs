//! The player's state: modes, songs, the filtered and sorted playlist,
//! navigation, scanning and playback decisions.
pub mod app;
pub mod library;
pub mod mode;
pub mod playback;
pub mod scan;

pub use app::{App, CachedFolder, Song, SongsCache};
pub use mode::{Mode, PlayMode, SearchMode, SortMode};
