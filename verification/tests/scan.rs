use rplayer::app::app::{App, CachedFolder, Song, SongsCache};
use rplayer::app::mode::{Mode, SortMode};
use rplayer::app::scan::{
    assemble_songs, cache_for, is_music_path, music_dir_from, plan_scan, song_from_tags, SongTag, TagField,
};
use rplayer::config::Config;

fn song(path: &str, title: &str, mtime: u64) -> Song {
    Song {
        path: path.to_string(),
        title: title.to_string(),
        artist: "A".to_string(),
        album: "B".to_string(),
        duration: 1000,
        mtime,
    }
}

fn entries(list: &[(&str, u64)]) -> Vec<(String, u64)> {
    list.iter().map(|(p, m)| (p.to_string(), *m)).collect()
}

#[test]
fn plan_reads_only_new_and_changed_files() {
    let cached = vec![song("/m/a.mp3", "a", 10), song("/m/b.mp3", "b", 20)];
    let found = entries(&[("/m/a.mp3", 10), ("/m/b.mp3", 21), ("/m/c.mp3", 5)]);
    let plan = plan_scan(&found, &cached);
    assert_eq!(plan.cached_count, 1);
    assert_eq!(plan.to_parse_new, vec!["/m/c.mp3".to_string()]);
    assert_eq!(plan.to_parse_updated, vec!["/m/b.mp3".to_string()]);
}

#[test]
fn plan_without_cache_reads_everything() {
    let found = entries(&[("/m/a.mp3", 1), ("/m/b.mp3", 2)]);
    let plan = plan_scan(&found, &vec![]);
    assert_eq!(plan.cached_count, 0);
    assert_eq!(plan.to_parse_new.len(), 2);
    assert!(plan.to_parse_updated.is_empty());
}

#[test]
fn assemble_keeps_walk_order_and_fresh_reads() {
    let cached = vec![song("/m/a.mp3", "old a", 10), song("/m/b.mp3", "old b", 20)];
    let found = entries(&[
        ("/m/c.mp3", 5),
        ("/m/b.mp3", 21),
        ("/m/a.mp3", 10),
        ("/m/bad.mp3", 1),
    ]);
    let parsed = vec![song("/m/c.mp3", "new c", 5), song("/m/b.mp3", "new b", 21)];
    let songs = assemble_songs(&found, &cached, &parsed);
    let titles: Vec<&str> = songs.iter().map(|s| s.title.as_str()).collect();
    // An unreadable new file is left out.
    assert_eq!(titles, vec!["new c", "new b", "old a"]);
}

#[test]
fn assemble_keeps_old_entry_when_changed_file_is_unreadable() {
    let cached = vec![song("/m/b.mp3", "old b", 20)];
    let found = entries(&[("/m/b.mp3", 21)]);
    let songs = assemble_songs(&found, &cached, &vec![]);
    assert_eq!(songs.len(), 1);
    assert_eq!(songs[0].title, "old b");
}

#[test]
fn tags_fill_the_song() {
    let tags = vec![
        SongTag { field: TagField::Artist, value: "Queen".to_string() },
        SongTag { field: TagField::Title, value: "Bohemian Rhapsody".to_string() },
        SongTag { field: TagField::Title, value: "Ignored".to_string() },
    ];
    let s = song_from_tags("/music/queen/br.flac", &tags, 354_000, 77);
    assert_eq!(s.path, "/music/queen/br.flac");
    assert_eq!(s.title, "Bohemian Rhapsody");
    assert_eq!(s.artist, "Queen");
    assert_eq!(s.album, "未知专辑");
    assert_eq!(s.duration, 354_000);
    assert_eq!(s.mtime, 77);
}

#[test]
fn missing_title_uses_file_stem() {
    let s = song_from_tags("/music/some song.mp3", &vec![], 0, 0);
    assert_eq!(s.title, "some song");
    assert_eq!(s.artist, "未知歌手");
    let s = song_from_tags("/", &vec![], 0, 0);
    assert_eq!(s.title, "Unknown");
}

#[test]
fn cache_is_for_its_folder_only() {
    let cache = SongsCache { music_folder: "/m".to_string(), songs: vec![song("/m/a.mp3", "a", 1)] };
    assert!(cache_for(cache.clone(), "/m").is_some());
    assert!(cache_for(cache, "/other").is_none());
}

#[test]
fn restore_songs_sorts_and_reports() {
    let mut app = App::with_config(Config::default());
    app.sort_mode = SortMode::Title;
    app.restore_songs(vec![song("/m/z.mp3", "Zed", 1), song("/m/a.mp3", "alpha", 1)]);
    assert_eq!(app.filtered_indices, vec![1, 0]);
    assert_eq!(app.status_message, "发现 2 首歌曲");
}

#[test]
fn scan_reports_progress_and_result() {
    let mut app = App::with_config(Config::default());
    app.scan_progress(3);
    assert_eq!(app.status_message, "");
    assert!(app.begin_scan());
    assert!(app.scanning);
    assert_eq!(app.status_message, "正在扫描媒体库...");
    assert!(!app.begin_scan());
    app.scan_progress(12);
    assert_eq!(app.status_message, "正在扫描媒体库... 已发现 12 首");
    app.scan_done(vec![song("/m/a.mp3", "a", 1)], 0, 1, 0);
    assert!(!app.scanning);
    assert_eq!(app.status_message, "扫描完成: 1 首 (缓存: 0 | 新增: 1 | 更新: 0)");
    assert!(app.begin_scan());
    app.scan_done(vec![song("/m/a.mp3", "a", 1)], 1, 0, 0);
    assert_eq!(app.status_message, "扫描完成: 1 首歌曲");
}

#[test]
fn scan_result_keeps_playing_and_selected_song() {
    let mut app = App::with_config(Config::default());
    app.restore_songs(vec![song("/m/b.mp3", "b", 1), song("/m/c.mp3", "c", 1)]);
    app.current_song_index = Some(1);
    app.selected_index = 0;
    assert!(app.begin_scan());
    app.scan_done(
        vec![song("/m/a.mp3", "a", 1), song("/m/b.mp3", "b", 1), song("/m/c.mp3", "c", 1)],
        2,
        1,
        0,
    );
    assert_eq!(app.current_song_index, Some(2));
    assert_eq!(app.filtered_indices, vec![0, 1, 2]);
    assert_eq!(app.selected_index, 1);
}

#[test]
fn cached_folders_select_open_folder() {
    let mut app = App::with_config(Config::default());
    app.config.music_folder = "/b".to_string();
    app.set_cached_folders(vec![
        CachedFolder { music_folder: "/a".to_string(), song_count: 3 },
        CachedFolder { music_folder: "/b".to_string(), song_count: 4 },
    ]);
    assert_eq!(app.cached_folders_selected, 1);
    app.config.music_folder = "/c".to_string();
    let folders = app.cached_folders.clone();
    app.set_cached_folders(folders);
    assert_eq!(app.cached_folders_selected, 0);
}

#[test]
fn switch_folder_loads_its_cache() {
    let mut app = App::with_config(Config::default());
    app.mode = Mode::Normal;
    app.songs = vec![song("/old/x.mp3", "x", 1)];
    app.filtered_indices = vec![0];
    app.current_song_index = Some(0);
    app.is_playing = true;
    app.search_query = "x".to_string();
    let cache = SongsCache {
        music_folder: "/new".to_string(),
        songs: vec![song("/new/b.mp3", "b", 1), song("/new/a.mp3", "a", 1)],
    };
    app.switch_folder("/new".to_string(), Some(cache));
    assert_eq!(app.config.music_folder, "/new");
    assert_eq!(app.current_song_index, None);
    assert!(!app.is_playing);
    assert_eq!(app.search_query, "");
    assert_eq!(app.songs.len(), 2);
    assert_eq!(app.filtered_indices, vec![1, 0]);
    assert_eq!(app.status_message, "发现 2 首歌曲");

    app.switch_folder("/empty".to_string(), None);
    assert!(app.songs.is_empty());
    assert!(app.filtered_indices.is_empty());
}

#[test]
fn music_dir_prefers_configured_folder() {
    assert_eq!(music_dir_from("/music", Some("/home/u/Music".to_string())), "/music");
    assert_eq!(music_dir_from("", Some("/home/u/Music".to_string())), "/home/u/Music");
    assert_eq!(music_dir_from("", None), ".");
    let mut app = App::with_config(Config::default());
    app.config.music_folder = "/set".to_string();
    assert_eq!(app.music_dir(), "/set");
    app.config.music_folder = String::new();
    assert!(!app.music_dir().is_empty());
}

#[test]
fn music_files_by_extension() {
    assert!(is_music_path("/m/a.mp3"));
    assert!(is_music_path("/m/b.FLAC"));
    assert!(is_music_path("/m/c.m4a"));
    assert!(is_music_path("/m/d.aac"));
    assert!(is_music_path("/m/e.ogg"));
    assert!(is_music_path("/m/f.wav"));
    assert!(!is_music_path("/m/cover.jpg"));
    assert!(!is_music_path("/m/lyrics.lrc"));
    assert!(!is_music_path("/m/mp3"));
}
