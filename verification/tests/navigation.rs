use rplayer::app::app::{App, Song};
use rplayer::app::mode::Mode;
use rplayer::config::Config;

fn song(path: &str, title: &str, artist: &str, album: &str, duration: u64) -> Song {
    Song {
        path: path.to_string(),
        title: title.to_string(),
        artist: artist.to_string(),
        album: album.to_string(),
        duration,
        mtime: 0,
    }
}

fn app_with(n: usize, height: usize) -> App {
    let mut app = App::with_config(Config::default());
    for i in 0..n {
        app.songs.push(song(
            &format!("/m/{}.mp3", i),
            &format!("Song {}", i),
            "Artist",
            "Album",
            180_000,
        ));
    }
    app.filtered_indices = (0..n).collect();
    app.playlist_visible_height = height;
    app
}

#[test]
fn start_state_is_empty_and_normal() {
    let app = App::with_config(Config::default());
    assert_eq!(app.mode, Mode::Normal);
    assert!(app.running);
    assert!(app.songs.is_empty());
    assert_eq!(app.playlist_visible_height, 10);
    assert_eq!(app.current_song_index, None);
    assert_eq!(app.status_expiry, None);
}

#[test]
fn new_takes_music_dir_from_command_line() {
    let mut config = Config::default();
    config.music_folder = "/old".to_string();
    let app = App::new(config.clone(), Some("/new".to_string()));
    assert_eq!(app.config.music_folder, "/new");
    let app = App::new(config, None);
    assert_eq!(app.config.music_folder, "/old");
}

#[test]
fn set_status_expires_three_seconds_later() {
    let mut app = App::with_config(Config::default());
    app.set_status("hello".to_string(), 1000);
    assert_eq!(app.status_message, "hello");
    assert_eq!(app.status_expiry, Some(4000));
    app.set_status("late".to_string(), u64::MAX - 10);
    assert_eq!(app.status_expiry, Some(u64::MAX));
}

#[test]
fn move_down_scrolls_to_keep_selection_visible() {
    let mut app = app_with(20, 5);
    for _ in 0..5 {
        app.move_down();
    }
    assert_eq!(app.selected_index, 5);
    assert_eq!(app.scroll_offset, 1);
    // The selection stays on screen.
    assert!(app.scroll_offset <= app.selected_index);
    assert!(app.selected_index < app.scroll_offset + app.playlist_visible_height);
}

#[test]
fn move_down_stops_at_last_row() {
    let mut app = app_with(3, 10);
    for _ in 0..5 {
        app.move_down();
    }
    assert_eq!(app.selected_index, 2);
}

#[test]
fn move_up_stops_at_first_row() {
    let mut app = app_with(3, 10);
    app.move_up();
    assert_eq!(app.selected_index, 0);
}

#[test]
fn move_down_then_up_returns() {
    let mut app = app_with(10, 4);
    app.selected_index = 3;
    app.move_down();
    app.move_up();
    assert_eq!(app.selected_index, 3);
}

#[test]
fn count_moves_five_rows() {
    let mut app = app_with(20, 10);
    app.move_down_by(5);
    assert_eq!(app.selected_index, 5);
    app.move_down_by(100);
    assert_eq!(app.selected_index, 19);
    assert_eq!(app.scroll_offset, 10);
    app.move_up_by(4);
    assert_eq!(app.selected_index, 15);
    app.move_up_by(100);
    assert_eq!(app.selected_index, 0);
    assert_eq!(app.scroll_offset, 0);
}

#[test]
fn goto_line_is_one_based_and_clamped() {
    let mut app = app_with(20, 5);
    app.goto_line(10);
    assert_eq!(app.selected_index, 9);
    assert_eq!(app.scroll_offset, 5);
    app.goto_line(99);
    assert_eq!(app.selected_index, 19);
}

#[test]
fn consume_count_defaults_to_one() {
    let mut app = app_with(3, 5);
    assert_eq!(app.consume_count(), 1);
    app.count = Some(7);
    app.status_message = "7".to_string();
    assert_eq!(app.consume_count(), 7);
    assert_eq!(app.count, None);
    assert_eq!(app.status_message, "");
}

#[test]
fn consume_count_keeps_timed_message_for_count_one() {
    let mut app = app_with(3, 5);
    app.count = Some(1);
    app.set_status("kept".to_string(), 0);
    assert_eq!(app.consume_count(), 1);
    assert_eq!(app.status_message, "kept");
}

#[test]
fn adjust_scroll_with_zero_height_shows_one_row() {
    let mut app = app_with(10, 0);
    app.selected_index = 7;
    app.adjust_scroll();
    assert_eq!(app.scroll_offset, 7);
}

#[test]
fn scroll_to_playing_selects_playing_song() {
    let mut app = app_with(10, 3);
    app.current_song_index = Some(8);
    assert!(app.scroll_to_playing());
    assert_eq!(app.selected_index, 8);
    assert_eq!(app.scroll_offset, 6);
    app.filtered_indices = vec![0, 1];
    assert!(!app.scroll_to_playing());
}

#[test]
fn list_position_finds_first() {
    let mut app = app_with(4, 3);
    app.filtered_indices = vec![3, 1, 1, 0];
    assert_eq!(app.list_position(1), Some(1));
    assert_eq!(app.list_position(2), None);
}

#[test]
fn defaults_are_empty() {
    let app = App::default();
    assert_eq!(app.sort_mode, rplayer::app::mode::SortMode::Title);
    assert!(app.songs.is_empty());
    assert_eq!(app.config.music_folder, "");
    let lyrics = rplayer::lyrics::LyricsManager::default();
    assert!(lyrics.get_current_and_next(0).0.is_none());
    assert_eq!(rplayer::lyrics::LyricsSync::default().current_index, 0);
}
