# rplayer

A terminal music player with LRC lyrics and Vim-style keys. The decisions of
the player are a library verified with Verus; the program around it drives
the terminal, the audio output and the files.

## Layout

- `src/` — the verified library
  - `text.rs` — character-sequence helpers (trimming, searching, decimal text)
  - `lyrics/` — the LRC parser, the lyrics of the playing song, line lookup
  - `app/` — the player state: navigation, search and sort, scanning,
    playback decisions, saving and restoring the playing song
  - `input/` — what each key does in each mode
  - `ui/` — what the widgets show: column widths and rows of the song list,
    the status bar, the lyrics panel, the popups, the screen layout
  - `theme.rs`, `config.rs` — the theme colour and the settings
- `app/` — the program: argument handling, terminal drawing (ratatui),
  keys (crossterm), audio (rodio), tags (symphonia), the background scan
  (walkdir, rayon) and the settings and cache files (toml, serde_json)
- `tests/` — tests of the library

Playback positions and lengths are kept in milliseconds. Key handling
returns an `Action` for the program to carry out (play, seek, save the
settings, ...), with the time passed in so that status messages expire.
