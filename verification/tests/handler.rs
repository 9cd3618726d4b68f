use rplayer::app::app::{App, CachedFolder, Song};
use rplayer::app::mode::{Mode, PlayMode, SearchMode};
use rplayer::config::Config;
use rplayer::input::handler::{Action, InputHandler, KeyCode, KeyInput, KeyMods};

fn song(i: usize) -> Song {
    Song {
        path: format!("/m/{}.mp3", i),
        title: format!("Title {}", i),
        artist: if i % 2 == 0 { "Even".to_string() } else { "Odd".to_string() },
        album: "Album".to_string(),
        duration: 200_000,
        mtime: 0,
    }
}

fn app_with(n: usize) -> App {
    let mut app = App::with_config(Config::default());
    app.songs = (0..n).map(song).collect();
    app.filtered_indices = (0..n).collect();
    app.playlist_visible_height = 5;
    app
}

fn ch(c: char) -> KeyInput {
    KeyInput { code: KeyCode::Char(c), mods: KeyMods::Plain }
}

fn ctrl(c: char) -> KeyInput {
    KeyInput { code: KeyCode::Char(c), mods: KeyMods::Control }
}

fn key(code: KeyCode) -> KeyInput {
    KeyInput { code, mods: KeyMods::Plain }
}

fn press(app: &mut App, k: KeyInput) -> Action {
    InputHandler::new().handle(app, k, 1000)
}

#[test]
fn j_and_k_move_the_selection() {
    let mut app = app_with(10);
    assert_eq!(press(&mut app, ch('j')), Action::Nothing);
    assert_eq!(press(&mut app, key(KeyCode::Down)), Action::Nothing);
    assert_eq!(app.selected_index, 2);
    press(&mut app, ch('k'));
    assert_eq!(app.selected_index, 1);
}

#[test]
fn count_prefix_repeats_the_motion() {
    let mut app = app_with(20);
    press(&mut app, ch('5'));
    assert_eq!(app.count, Some(5));
    assert_eq!(app.status_message, "5");
    press(&mut app, ch('j'));
    assert_eq!(app.selected_index, 5);
    assert_eq!(app.count, None);
    assert_eq!(app.status_message, "");
}

#[test]
fn count_then_g_goes_to_line() {
    let mut app = app_with(20);
    press(&mut app, ch('1'));
    press(&mut app, ch('0'));
    assert_eq!(app.count, Some(10));
    press(&mut app, ch('g'));
    assert_eq!(app.selected_index, 9);
    press(&mut app, ch('g'));
    assert_eq!(app.selected_index, 0);
    press(&mut app, ch('G'));
    assert_eq!(app.selected_index, 19);
    assert_eq!(app.scroll_offset, 15);
}

#[test]
fn zero_alone_is_not_a_count() {
    let mut app = app_with(5);
    press(&mut app, ch('0'));
    assert_eq!(app.count, None);
}

#[test]
fn backspace_and_esc_edit_the_count() {
    let mut app = app_with(5);
    press(&mut app, ch('4'));
    press(&mut app, ch('2'));
    press(&mut app, key(KeyCode::Backspace));
    assert_eq!(app.count, Some(4));
    assert_eq!(app.status_message, "4");
    press(&mut app, key(KeyCode::Esc));
    assert_eq!(app.count, None);
    assert_eq!(app.status_message, "");
}

#[test]
fn page_down_and_up() {
    let mut app = app_with(20);
    press(&mut app, key(KeyCode::PageDown));
    assert_eq!(app.selected_index, 5);
    assert_eq!(app.scroll_offset, 5);
    press(&mut app, ch('d'));
    assert_eq!(app.selected_index, 10);
    press(&mut app, ch('u'));
    assert_eq!(app.selected_index, 5);
    press(&mut app, key(KeyCode::Left));
    assert_eq!(app.selected_index, 0);
    assert_eq!(app.scroll_offset, 0);
}

#[test]
fn enter_with_count_out_of_range() {
    let mut app = app_with(3);
    press(&mut app, ch('9'));
    assert_eq!(press(&mut app, key(KeyCode::Enter)), Action::Nothing);
    assert_eq!(app.status_message, "超出范围 (共3首)");
    assert_eq!(app.status_expiry, Some(4000));
}

#[test]
fn enter_plays_counted_row() {
    let mut app = app_with(5);
    press(&mut app, ch('3'));
    assert_eq!(press(&mut app, key(KeyCode::Enter)), Action::Play);
    assert_eq!(app.selected_index, 2);
}

#[test]
fn playback_keys_return_actions() {
    let mut app = app_with(3);
    assert_eq!(press(&mut app, ch(' ')), Action::TogglePause);
    assert_eq!(press(&mut app, ch('n')), Action::Next);
    assert_eq!(press(&mut app, ch('p')), Action::Prev);
    assert_eq!(press(&mut app, ch('s')), Action::Stop);
    assert_eq!(press(&mut app, ch('+')), Action::VolumeUp);
    assert_eq!(press(&mut app, ch('=')), Action::VolumeUp);
    assert_eq!(press(&mut app, ch('-')), Action::VolumeDown);
    assert_eq!(press(&mut app, ch('h')), Action::Seek { forward: false });
    assert_eq!(press(&mut app, ch('l')), Action::Seek { forward: true });
    assert_eq!(press(&mut app, ch('q')), Action::Quit);
    assert_eq!(press(&mut app, ctrl('c')), Action::Quit);
    assert_eq!(press(&mut app, ch('S')), Action::OpenSwitchCache);
}

#[test]
fn seek_reports_ten_seconds() {
    let mut app = app_with(1);
    app.seek_done(true, 0);
    assert_eq!(app.status_message, ">> +10秒");
    app.seek_done(false, 0);
    assert_eq!(app.status_message, "<< -10秒");
}

#[test]
fn jump_to_playing_song() {
    let mut app = app_with(10);
    press(&mut app, ch('`'));
    assert_eq!(app.status_message, "没有正在播放的歌曲");
    app.current_song_index = Some(7);
    press(&mut app, ch('\''));
    assert_eq!(app.selected_index, 7);
    assert_eq!(app.scroll_offset, 3);
    app.filtered_indices = vec![0, 1];
    app.selected_index = 0;
    press(&mut app, ch('`'));
    assert_eq!(app.status_message, "当前歌曲不在显示列表中");
}

#[test]
fn search_typing_filters_live() {
    let mut app = app_with(4);
    press(&mut app, ch('/'));
    assert_eq!(app.mode, Mode::Search);
    for c in "odd".chars() {
        press(&mut app, ch(c));
    }
    assert_eq!(app.search_query, "odd");
    assert_eq!(app.search_cursor, 3);
    assert_eq!(app.filtered_indices, vec![1, 3]);
    press(&mut app, key(KeyCode::Left));
    press(&mut app, key(KeyCode::Backspace));
    assert_eq!(app.search_query, "od");
    assert_eq!(app.search_cursor, 1);
    press(&mut app, key(KeyCode::Home));
    press(&mut app, key(KeyCode::Delete));
    assert_eq!(app.search_query, "d");
    press(&mut app, key(KeyCode::End));
    assert_eq!(app.search_cursor, 1);
    press(&mut app, key(KeyCode::Enter));
    assert_eq!(app.mode, Mode::Normal);
}

#[test]
fn search_escape_restores_full_list() {
    let mut app = app_with(4);
    press(&mut app, ch('f'));
    press(&mut app, ch('o'));
    press(&mut app, ch('d'));
    assert_eq!(app.filtered_indices, vec![1, 3]);
    press(&mut app, key(KeyCode::Esc));
    assert_eq!(app.mode, Mode::Normal);
    assert_eq!(app.search_query, "");
    assert_eq!(app.filtered_indices, vec![0, 1, 2, 3]);
    assert_eq!(app.status_message, "");
}

#[test]
fn ctrl_f_cycles_search_field() {
    let mut app = app_with(2);
    press(&mut app, ctrl('f'));
    assert_eq!(app.search_mode, SearchMode::Artist);
    assert_eq!(app.status_message, "搜索字段: 歌手");
    press(&mut app, ch('/'));
    press(&mut app, ctrl('f'));
    assert_eq!(app.search_mode, SearchMode::Album);
    assert_eq!(app.search_query, "");
}

#[test]
fn capital_f_clears_search() {
    let mut app = app_with(4);
    app.search_query = "odd".to_string();
    app.filtered_indices = vec![1, 3];
    press(&mut app, ch('F'));
    assert_eq!(app.filtered_indices, vec![0, 1, 2, 3]);
    assert_eq!(app.status_message, "已清除搜索");
}

#[test]
fn r_cycles_play_mode() {
    let mut app = app_with(1);
    press(&mut app, ch('r'));
    assert_eq!(app.play_mode, PlayMode::Single);
    assert_eq!(app.status_message, "单曲循环");
    press(&mut app, ch('r'));
    press(&mut app, ch('r'));
    press(&mut app, ch('r'));
    assert_eq!(app.play_mode, PlayMode::Sequential);
    assert_eq!(app.status_message, "顺序播放");
}

#[test]
fn t_cycles_sort() {
    let mut app = app_with(3);
    press(&mut app, ch('t'));
    assert_eq!(app.status_message, "排序: 歌手");
}

#[test]
fn rescan_asks_for_confirmation() {
    let mut app = app_with(1);
    press(&mut app, ch('R'));
    assert_eq!(app.mode, Mode::ConfirmRefresh);
    assert_eq!(app.status_message, "确认重新扫描媒体库？ (y/n)");
    assert_eq!(press(&mut app, ch('x')), Action::Nothing);
    assert_eq!(app.mode, Mode::ConfirmRefresh);
    assert_eq!(press(&mut app, ch('y')), Action::StartScan);
    assert_eq!(app.mode, Mode::Normal);
    press(&mut app, ch('R'));
    assert_eq!(press(&mut app, key(KeyCode::Esc)), Action::Nothing);
    assert_eq!(app.status_message, "已取消");
}

#[test]
fn help_closes_on_any_key() {
    let mut app = app_with(1);
    press(&mut app, ch('?'));
    assert_eq!(app.mode, Mode::Help);
    assert_eq!(press(&mut app, ch('z')), Action::Nothing);
    assert_eq!(app.mode, Mode::Normal);
}

#[test]
fn theme_colour_input_and_save() {
    let mut app = app_with(1);
    press(&mut app, ch('T'));
    assert_eq!(app.mode, Mode::Theme);
    assert_eq!(app.status_message, "输入主题色 (6位十六进制, 如 56B6C2)");
    assert_eq!(app.status_expiry, None);
    for c in "#56b6c2x".chars() {
        press(&mut app, ch(c));
    }
    // 'x' is not a hex digit; a '#' input holds seven characters.
    assert_eq!(app.theme_color_input, "#56b6c2");
    assert_eq!(press(&mut app, key(KeyCode::Enter)), Action::SaveConfig);
    assert_eq!(app.config.themecolor, "56b6c2");
    assert_eq!(app.status_message, "主题色已更新: #56b6c2");
    assert_eq!(app.mode, Mode::Normal);
}

#[test]
fn theme_colour_invalid_and_reset() {
    let mut app = app_with(1);
    press(&mut app, ch('T'));
    press(&mut app, ch('a'));
    assert_eq!(press(&mut app, key(KeyCode::Enter)), Action::Nothing);
    assert_eq!(app.status_message, "无效颜色值, 需要6位十六进制 (如 56B6C2)");
    press(&mut app, ch('T'));
    assert_eq!(press(&mut app, key(KeyCode::Enter)), Action::SaveConfig);
    assert_eq!(app.config.themecolor, "");
    assert_eq!(app.status_message, "主题色已恢复默认");
}

#[test]
fn switch_cache_navigation_wraps() {
    let mut app = app_with(1);
    app.cached_folders = vec![
        CachedFolder { music_folder: "/a".to_string(), song_count: 1 },
        CachedFolder { music_folder: "/b".to_string(), song_count: 2 },
    ];
    app.open_switch_cache(0);
    assert_eq!(app.mode, Mode::SwitchCache);
    press(&mut app, ch('k'));
    assert_eq!(app.cached_folders_selected, 1);
    press(&mut app, ch('j'));
    assert_eq!(app.cached_folders_selected, 0);
    press(&mut app, key(KeyCode::Down));
    assert_eq!(press(&mut app, key(KeyCode::Enter)), Action::SwitchFolder(1));
    assert_eq!(app.mode, Mode::Normal);
}

#[test]
fn switch_cache_without_caches() {
    let mut app = app_with(1);
    app.open_switch_cache(0);
    assert_eq!(app.mode, Mode::Normal);
    assert_eq!(app.status_message, "没有可用的缓存");
}

#[test]
fn finish_normal_key_drops_untimed_count() {
    let mut app = app_with(1);
    app.count = Some(3);
    app.status_message = "3".to_string();
    app.finish_normal_key();
    assert_eq!(app.count, None);
    assert_eq!(app.status_message, "");
}

#[test]
fn saved_theme_colour_reads_back() {
    let mut app = app_with(1);
    press(&mut app, ch('T'));
    for c in "#0a0B0c".chars() {
        press(&mut app, ch(c));
    }
    let typed = app.theme_color_input.clone();
    assert_eq!(press(&mut app, key(KeyCode::Enter)), Action::SaveConfig);
    let saved = rplayer::theme::parse_hex_color(&app.config.themecolor);
    assert_eq!(saved, Some((10, 11, 12)));
    assert_eq!(saved, rplayer::theme::parse_hex_color(&typed));
}

#[test]
fn can_handle_rejects_overflowing_keys() {
    let h = InputHandler::new();
    let mut app = app_with(3);
    assert!(h.can_handle(&app, ch('j')));
    app.count = Some(usize::MAX / 2 + 1);
    assert!(!h.can_handle(&app, ch('1')));
    assert!(!h.can_handle(&app, key(KeyCode::PageDown)));
    app.count = Some(2);
    assert!(h.can_handle(&app, key(KeyCode::PageDown)));
    app.scroll_offset = 2;
    app.selected_index = 1;
    assert!(!h.can_handle(&app, key(KeyCode::PageDown)));
    app.mode = Mode::Search;
    app.search_query = "ab".to_string();
    app.search_cursor = 3;
    assert!(!h.can_handle(&app, ch('x')));
    assert!(h.can_handle(&app, ctrl('f')));
    app.search_cursor = 2;
    assert!(h.can_handle(&app, ch('x')));
}
