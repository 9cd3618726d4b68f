use rplayer::app::app::{App, Song};
use rplayer::app::mode::PlayMode;
use rplayer::app::playback::{seek_target, NextStep, PrevStep, RestoreStep};
use rplayer::config::Config;

fn song(i: usize) -> Song {
    Song {
        path: format!("/m/{}.mp3", i),
        title: format!("T{}", i),
        artist: format!("A{}", i),
        album: "B".to_string(),
        duration: (i as u64 + 1) * 1000,
        mtime: 0,
    }
}

fn app_with(n: usize) -> App {
    let mut app = App::with_config(Config::default());
    app.songs = (0..n).map(song).collect();
    app.filtered_indices = (0..n).collect();
    app
}

#[test]
fn next_in_sequence_stops_at_end() {
    let mut app = app_with(3);
    app.current_song_index = Some(1);
    assert_eq!(app.next_song_with(0), NextStep::Play);
    assert_eq!(app.selected_index, 2);
    app.current_song_index = Some(2);
    assert_eq!(app.next_song_with(0), NextStep::Stop);
}

#[test]
fn next_in_list_repeat_wraps() {
    let mut app = app_with(3);
    app.play_mode = PlayMode::All;
    app.current_song_index = Some(2);
    assert_eq!(app.next_song_with(0), NextStep::Play);
    assert_eq!(app.selected_index, 0);
}

#[test]
fn next_in_single_repeat_stays() {
    let mut app = app_with(3);
    app.play_mode = PlayMode::Single;
    app.current_song_index = Some(1);
    app.selected_index = 0;
    assert_eq!(app.next_song_with(0), NextStep::Play);
    assert_eq!(app.selected_index, 1);
}

#[test]
fn next_in_shuffle_uses_draw() {
    let mut app = app_with(5);
    app.play_mode = PlayMode::Shuffle;
    assert_eq!(app.next_song_with(3), NextStep::Play);
    assert_eq!(app.selected_index, 3);
    for _ in 0..20 {
        assert_eq!(app.next_song(), NextStep::Play);
        assert!(app.selected_index < 5);
    }
}

#[test]
fn next_with_empty_list_does_nothing() {
    let mut app = app_with(0);
    assert_eq!(app.next_song(), NextStep::Nothing);
    assert_eq!(app.prev_song(), PrevStep::Nothing);
}

#[test]
fn prev_wraps_to_last() {
    let mut app = app_with(3);
    app.current_song_index = Some(0);
    assert_eq!(app.prev_song(), PrevStep::Play);
    assert_eq!(app.selected_index, 2);
}

#[test]
fn prev_after_three_seconds_restarts() {
    let mut app = app_with(3);
    app.current_song_index = Some(1);
    app.current_pos = 3001;
    assert_eq!(app.prev_song(), PrevStep::Restart(1));
    assert_eq!(app.current_pos, 0);
    app.current_pos = 3000;
    assert_eq!(app.prev_song(), PrevStep::Play);
    assert_eq!(app.selected_index, 0);
}

#[test]
fn select_for_play_falls_back_to_first_row() {
    let mut app = app_with(3);
    app.selected_index = 7;
    assert_eq!(app.select_for_play(), Some(0));
    assert_eq!(app.selected_index, 0);
    let mut empty = app_with(0);
    assert_eq!(empty.select_for_play(), None);
}

#[test]
fn play_started_sets_state_and_message() {
    let mut app = app_with(3);
    app.current_pos = 5;
    app.on_play_started(2);
    assert_eq!(app.current_song_index, Some(2));
    assert!(app.is_playing);
    assert_eq!(app.duration, 3000);
    assert_eq!(app.current_pos, 0);
    assert_eq!(app.status_message, "播放中: A2 - T2");
}

#[test]
fn play_failed_reports_error() {
    let mut app = app_with(1);
    app.on_play_failed("no device", 10);
    assert_eq!(app.status_message, "播放失败: no device");
    assert_eq!(app.status_expiry, Some(3010));
}

#[test]
fn toggle_pause_needs_a_song() {
    let mut app = app_with(1);
    assert!(!app.toggle_pause());
    app.current_song_index = Some(0);
    app.is_playing = true;
    assert!(app.toggle_pause());
    assert!(!app.is_playing);
    assert_eq!(app.status_message, "暂停");
    assert!(app.toggle_pause());
    assert_eq!(app.status_message, "播放");
}

#[test]
fn stop_resets_position() {
    let mut app = app_with(1);
    app.is_playing = true;
    app.current_pos = 1234;
    app.stop();
    assert!(!app.is_playing);
    assert_eq!(app.current_pos, 0);
    assert_eq!(app.status_message, "停止");
}

#[test]
fn quit_then_restore_finds_the_song() {
    let mut app = app_with(4);
    app.current_song_index = Some(2);
    app.quit(65_432);
    assert!(!app.running);
    assert_eq!(app.config.last_song_path, "/m/2.mp3");
    assert_eq!(app.config.last_position_secs, 65);

    // The next start, with the same library.
    let mut next = app_with(4);
    next.config = app.config.clone();
    next.playlist_visible_height = 2;
    assert_eq!(next.find_saved_song(), RestoreStep::Play(2));
    assert_eq!(next.on_restored(2), 65);
    assert_eq!(next.current_song_index, Some(2));
    assert!(!next.is_playing);
    assert_eq!(next.current_pos, 65_000);
    assert_eq!(next.duration, 3000);
    assert_eq!(next.selected_index, 2);
    assert_eq!(next.scroll_offset, 1);
}

#[test]
fn quit_without_song_clears_record() {
    let mut app = app_with(1);
    app.config.last_song_path = "/old.mp3".to_string();
    app.config.last_position_secs = 9;
    app.quit(0);
    assert_eq!(app.config.last_song_path, "");
    assert_eq!(app.config.last_position_secs, 0);
    assert_eq!(app.find_saved_song(), RestoreStep::Nothing);
}

#[test]
fn saved_song_gone_is_forgotten() {
    let mut app = app_with(2);
    app.config.last_song_path = "/gone.mp3".to_string();
    app.config.last_position_secs = 9;
    assert_eq!(app.find_saved_song(), RestoreStep::Forget);
    assert_eq!(app.config.last_song_path, "");
    assert_eq!(app.config.last_position_secs, 0);
}

#[test]
fn save_records_sort_order() {
    let mut app = app_with(1);
    app.sort_mode = rplayer::app::mode::SortMode::Album;
    app.save_playback_state(0);
    assert_eq!(app.config.sort_mode, rplayer::app::mode::SortMode::Album);
}

#[test]
fn track_playback_follows_player() {
    let mut app = app_with(2);
    app.current_song_index = Some(0);
    app.is_playing = true;
    assert!(!app.track_playback(1500, true));
    assert_eq!(app.current_pos, 1500);
    assert!(app.track_playback(2000, false));
    assert!(!app.is_playing);
    assert_eq!(app.current_pos, 2000);
    // Paused: the position is left alone.
    assert!(!app.track_playback(9000, false));
    assert_eq!(app.current_pos, 2000);
}

#[test]
fn visible_height_leaves_room_for_border() {
    let mut app = app_with(1);
    app.set_visible_height(12);
    assert_eq!(app.playlist_visible_height, 10);
    app.set_visible_height(1);
    assert_eq!(app.playlist_visible_height, 0);
}

#[test]
fn play_mode_icons() {
    assert_eq!(PlayMode::Single.icon(), "🔂");
    assert_eq!(PlayMode::All.icon(), "🔁");
    assert_eq!(PlayMode::Shuffle.icon(), "🔀");
    assert_eq!(PlayMode::Shuffle.as_str(), "随机播放");
    assert_eq!(PlayMode::All.as_str(), "列表循环");
}

#[test]
fn seek_target_stays_within_song() {
    assert_eq!(seek_target(5_000, false, 10_000, None), 0);
    assert_eq!(seek_target(5_000, true, 10_000, None), 15_000);
    assert_eq!(seek_target(55_000, true, 10_000, Some(60_000)), 60_000);
    assert_eq!(seek_target(u64::MAX - 1, true, 10_000, None), u64::MAX);
}
