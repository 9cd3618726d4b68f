use rplayer::app::app::{App, CachedFolder, Song};
use rplayer::app::mode::{Mode, PlayMode};
use rplayer::config::Config;
use rplayer::lyrics::LyricsManager;
use rplayer::ui::playlist::{column_widths, PlaylistWidget, RowMarker};
use rplayer::ui::popup::{centered_area, shorten_path, visible_folders, Area, HelpWidget, SwitchCacheWidget};
use rplayer::ui::statusbar::{MessageWidget, SearchWidget, StatusbarWidget, ThemeWidget};
use rplayer::ui::utils::{format_duration_compact, format_duration_wide, pad_to_width, truncate_to_width};
use rplayer::ui::{Overlay, Ui};

fn song(title: &str, artist: &str, album: &str, duration: u64) -> Song {
    Song {
        path: format!("/m/{}.mp3", title),
        title: title.to_string(),
        artist: artist.to_string(),
        album: album.to_string(),
        duration,
        mtime: 0,
    }
}

#[test]
fn durations_format_minutes_and_seconds() {
    assert_eq!(format_duration_compact(0), "0:00");
    assert_eq!(format_duration_compact(65_999), "1:05");
    assert_eq!(format_duration_compact(59_999), "0:59");
    assert_eq!(format_duration_compact(754_000), "12:34");
    assert_eq!(format_duration_compact(3_600_000), "60:00");
    assert_eq!(format_duration_wide(5_000), " 0:05");
    assert_eq!(format_duration_wide(754_000), "12:34");
    assert_eq!(format_duration_wide(6_000_000), "100:00");
}

#[test]
fn truncate_counts_display_columns() {
    assert_eq!(truncate_to_width("Hello, world", 8), "Hello...");
    assert_eq!(truncate_to_width("short", 8), "short");
    // Text that fits is left as it is.
    assert_eq!(truncate_to_width("exactly8", 8), "exactly8");
    assert_eq!(truncate_to_width("ab", 3), "ab");
    assert_eq!(truncate_to_width("abcd", 3), "...");
    // Wide characters take two columns each.
    assert_eq!(truncate_to_width("你好世界再见", 7), "你好...");
    assert_eq!(truncate_to_width("anything", 3), "...");
    assert_eq!(truncate_to_width("anything", 1), ".");
    assert_eq!(truncate_to_width("", 0), "");
    assert_eq!(truncate_to_width("x", 0), "");
}

#[test]
fn pad_fills_display_columns() {
    assert_eq!(pad_to_width("ab", 5), "ab   ");
    assert_eq!(pad_to_width("你好", 5), "你好 ");
    assert_eq!(pad_to_width("toolong", 3), "toolong");
}

#[test]
fn column_widths_by_list_width() {
    let c = column_widths(100);
    assert_eq!((c.title, c.artist, c.album), (32, 16, Some(34)));
    let c = column_widths(60);
    assert_eq!((c.title, c.artist, c.album), (16, 8, Some(18)));
    let c = column_widths(59);
    assert_eq!((c.title, c.artist, c.album), (25, 17, None));
    let c = column_widths(27);
    assert_eq!((c.title, c.artist, c.album), (10, 5, None));
}

#[test]
fn playlist_rows_and_title() {
    let mut app = App::with_config(Config::default());
    app.songs = vec![
        song("First", "Someone", "Record", 61_000),
        song("A rather long song title indeed", "Band", "LP", 200_000),
        song("Third", "X", "Y", 5_000),
    ];
    app.filtered_indices = vec![0, 1, 2];
    app.selected_index = 1;
    app.scroll_offset = 1;
    app.current_song_index = Some(1);
    app.is_playing = true;
    let w = PlaylistWidget::new(&app);
    assert_eq!(w.title(), " 歌曲列表 [3 首] ");
    // 40 columns: title 13, artist 10, no album; 3 rows fit in height 5.
    let rows = w.rows(40, 5);
    assert_eq!(rows.len(), 2);
    assert_eq!(rows[0].marker, RowMarker::Playing);
    assert_eq!(rows[0].number, "  2.");
    assert_eq!(rows[0].title, "A rather l...");
    assert_eq!(rows[0].artist, "Band      ");
    assert_eq!(rows[0].album, None);
    assert_eq!(rows[0].duration, " 3:20");
    assert!(rows[0].selected);
    assert_eq!(rows[1].marker, RowMarker::Idle);
    assert_eq!(rows[1].number, "  3.");
    assert!(!rows[1].selected);
    app.is_playing = false;
    let w = PlaylistWidget::new(&app);
    let rows = w.rows(80, 3);
    assert_eq!(rows.len(), 1);
    assert_eq!(rows[0].marker, RowMarker::Paused);
    assert!(rows[0].album.is_some());
}

#[test]
fn status_bar_right_aligns_song_info() {
    let mut app = App::with_config(Config::default());
    app.songs = vec![song("Song", "Artist", "Album", 200_000)];
    app.current_song_index = Some(0);
    app.current_pos = 61_000;
    app.duration = 200_000;
    let line = StatusbarWidget::new(&app).line(40);
    assert_eq!(line.mode_text, " Normal ");
    assert_eq!(line.play_mode_text, "");
    assert_eq!(line.song_info, "Song 1:01/3:20");
    // 40 - (8 + 0 + 1 + 14)
    assert_eq!(line.padding, 17);
    app.play_mode = PlayMode::Shuffle;
    app.mode = Mode::Search;
    app.current_song_index = None;
    let line = StatusbarWidget::new(&app).line(10);
    assert_eq!(line.mode_text, " Search ");
    assert_eq!(line.play_mode_text, " 🔀");
    assert_eq!(line.song_info, "1:01/3:20");
    assert_eq!(line.padding, 0);
}

#[test]
fn message_line_has_leading_space() {
    let mut app = App::with_config(Config::default());
    app.status_message = "hi".to_string();
    assert_eq!(MessageWidget::new(&app).text(), " hi");
    app.status_message = String::new();
    assert_eq!(MessageWidget::new(&app).text(), " ");
}

#[test]
fn search_widget_holds_query() {
    let w = SearchWidget::new("abc");
    assert_eq!(w.query, "abc");
}

#[test]
fn theme_input_cells_show_cursor() {
    let cells = ThemeWidget::new("ab", 1).cells();
    assert_eq!(cells, vec![('a', false), ('b', true)]);
    let cells = ThemeWidget::new("ab", 9).cells();
    assert_eq!(cells, vec![('a', false), ('b', false), (' ', true)]);
    let cells = ThemeWidget::new("", 0).cells();
    assert_eq!(cells, vec![(' ', true)]);
}

#[test]
fn help_popup_is_centred() {
    let area = Area { x: 0, y: 0, width: 100, height: 40 };
    let r = HelpWidget::new().popup_area(area);
    assert_eq!(r, Area { x: 32, y: 7, width: 36, height: 26 });
    let small = Area { x: 2, y: 1, width: 20, height: 10 };
    let r = HelpWidget::new().popup_area(small);
    assert_eq!(r, Area { x: 2, y: 1, width: 20, height: 10 });
    let r = centered_area(Area { x: 10, y: 10, width: 50, height: 50 }, 10, 20);
    assert_eq!(r, Area { x: 30, y: 25, width: 10, height: 20 });
}

#[test]
fn folder_window_keeps_selection_centred() {
    // 10 folders, height 10: 4 fit.
    assert_eq!(visible_folders(10, 0, 10), (0, 4));
    assert_eq!(visible_folders(10, 5, 10), (3, 7));
    assert_eq!(visible_folders(10, 9, 10), (6, 10));
    assert_eq!(visible_folders(3, 2, 10), (0, 3));
    assert_eq!(visible_folders(3, 2, 6), (0, 0));
}

#[test]
fn long_paths_keep_their_end() {
    let long = "/home/user/music/collection/of/many/albums/here";
    assert_eq!(long.len(), 47);
    assert_eq!(shorten_path(long), ".../music/collection/of/many/albums/here");
    assert_eq!(shorten_path("/short"), "/short");
}

#[test]
fn folder_lines_mark_current_and_selected() {
    let folders = vec![
        CachedFolder { music_folder: "/a".to_string(), song_count: 12 },
        CachedFolder { music_folder: "/b".to_string(), song_count: 3 },
    ];
    let list = SwitchCacheWidget::new(&folders, 1, "/a");
    let lines = list.lines(20);
    assert_eq!(lines.len(), 2);
    assert_eq!(lines[0].text, "/a (12 首) [当前]");
    assert!(lines[0].current);
    assert!(!lines[0].selected);
    assert_eq!(lines[1].text, "/b (3 首)");
    assert!(lines[1].selected);
    let r = list.popup_area(Area { x: 0, y: 0, width: 80, height: 20 }, lines.len());
    assert_eq!(r, Area { x: 15, y: 6, width: 50, height: 8 });
}

#[test]
fn ui_overlay_by_mode() {
    let mut app = App::with_config(Config::default());
    let lyrics = LyricsManager::new();
    app.mode = Mode::Help;
    {
        let mut ui = Ui::new(&mut app, &lyrics);
        assert_eq!(ui.overlay(), Overlay::Help);
        ui.fit_playlist(20);
    }
    assert_eq!(app.playlist_visible_height, 18);
    app.mode = Mode::ConfirmRefresh;
    let ui = Ui::new(&mut app, &lyrics);
    assert_eq!(ui.overlay(), Overlay::Nothing);
}

#[test]
fn screen_layout_parts() {
    let c = rplayer::ui::layout::create_layout(Area { x: 0, y: 0, width: 80, height: 24 });
    assert_eq!(c.playlist, Area { x: 0, y: 0, width: 80, height: 18 });
    assert_eq!(c.lyrics, Area { x: 0, y: 18, width: 80, height: 4 });
    assert_eq!(c.message, Area { x: 0, y: 22, width: 80, height: 1 });
    assert_eq!(c.statusbar, Area { x: 0, y: 23, width: 80, height: 1 });
}
