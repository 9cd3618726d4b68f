use rplayer::app::app::{App, Song};
use rplayer::app::mode::{SearchMode, SortMode};
use rplayer::config::Config;

fn song(path: &str, title: &str, artist: &str, album: &str) -> Song {
    Song {
        path: path.to_string(),
        title: title.to_string(),
        artist: artist.to_string(),
        album: album.to_string(),
        duration: 60_000,
        mtime: 0,
    }
}

fn library() -> App {
    let mut app = App::with_config(Config::default());
    app.songs = vec![
        song("/music/b/Yesterday.mp3", "Yesterday", "The Beatles", "Help!"),
        song("/music/a/Hey.flac", "hey jude", "The Beatles", "Past Masters"),
        song("/music/c/Wonderwall.mp3", "Wonderwall", "Oasis", "Morning Glory"),
        song("/music/a/Angel.ogg", "Angel", "Massive Attack", "Mezzanine"),
    ];
    app.filtered_indices = vec![0, 1, 2, 3];
    app
}

#[test]
fn sort_by_title_ignores_case() {
    let mut app = library();
    app.sort_mode = SortMode::Title;
    app.sort_songs();
    assert_eq!(app.filtered_indices, vec![3, 1, 2, 0]);
}

#[test]
fn sort_by_artist_breaks_ties_by_title() {
    let mut app = library();
    app.sort_mode = SortMode::Artist;
    app.sort_songs();
    assert_eq!(app.filtered_indices, vec![3, 2, 1, 0]);
}

#[test]
fn sort_by_folder_uses_parent_directory() {
    let mut app = library();
    app.sort_mode = SortMode::Folder;
    app.sort_songs();
    assert_eq!(app.filtered_indices, vec![3, 1, 0, 2]);
}

#[test]
fn sort_is_stable_for_equal_keys() {
    let mut app = App::with_config(Config::default());
    app.songs = vec![
        song("/x/1.mp3", "Same", "A", "X"),
        song("/x/2.mp3", "Same", "A", "Y"),
        song("/x/3.mp3", "Same", "A", "Z"),
    ];
    app.filtered_indices = vec![2, 0, 1];
    app.sort_mode = SortMode::Title;
    app.sort_songs();
    assert_eq!(app.filtered_indices, vec![2, 0, 1]);
}

#[test]
fn filter_matches_title_or_artist_ignoring_case() {
    let mut app = library();
    app.search_query = "BEATLES".to_string();
    app.apply_filter();
    assert_eq!(app.filtered_indices, vec![1, 0]);
    assert_eq!(app.selected_index, 0);
    assert_eq!(app.status_message, "匹配到 2 首 (歌曲/歌手)");
}

#[test]
fn filter_by_album() {
    let mut app = library();
    app.search_mode = SearchMode::Album;
    app.search_query = "glory".to_string();
    app.apply_filter();
    assert_eq!(app.filtered_indices, vec![2]);
}

#[test]
fn filter_by_file_name() {
    let mut app = library();
    app.search_mode = SearchMode::Filename;
    app.search_query = ".flac".to_string();
    app.apply_filter();
    assert_eq!(app.filtered_indices, vec![1]);
    // The folder is not part of the file name.
    app.search_query = "music".to_string();
    app.apply_filter();
    assert!(app.filtered_indices.is_empty());
    assert_eq!(app.status_message, "匹配到 0 首 (文件名)");
}

#[test]
fn empty_query_lists_every_song() {
    let mut app = library();
    app.filtered_indices = vec![];
    app.search_query = String::new();
    app.apply_filter();
    assert_eq!(app.filtered_indices.len(), 4);
}

#[test]
fn cycle_sort_keeps_selected_song() {
    let mut app = library();
    app.sort_mode = SortMode::Title;
    app.sort_songs();
    // Select "Wonderwall" (song 2).
    app.selected_index = 2;
    app.cycle_sort(500);
    assert_eq!(app.sort_mode, SortMode::Artist);
    assert_eq!(app.filtered_indices, vec![3, 2, 1, 0]);
    assert_eq!(app.filtered_indices[app.selected_index], 2);
    assert_eq!(app.status_message, "排序: 歌手");
    assert_eq!(app.status_expiry, Some(3500));
}

#[test]
fn cycle_sort_reapplies_search() {
    let mut app = library();
    app.search_query = "the".to_string();
    app.selected_index = 1;
    app.cycle_sort(0);
    assert_eq!(app.sort_mode, SortMode::Artist);
    assert_eq!(app.filtered_indices, vec![1, 0]);
    assert_eq!(app.selected_index, 0);
}

#[test]
fn sort_order_cycles_through_four() {
    let mut m = SortMode::Title;
    let mut names = Vec::new();
    for _ in 0..4 {
        names.push(m.as_str());
        m = m.next();
    }
    assert_eq!(m, SortMode::Title);
    assert_eq!(names, vec!["歌曲名", "歌手", "专辑", "文件夹"]);
}

#[test]
fn search_field_cycles_through_four() {
    let mut m = SearchMode::TitleArtist;
    let mut names = Vec::new();
    for _ in 0..4 {
        names.push(m.as_str());
        m = m.next();
    }
    assert_eq!(m, SearchMode::TitleArtist);
    assert_eq!(names, vec!["歌曲/歌手", "歌手", "专辑", "文件名"]);
}

#[test]
fn four_sort_changes_come_back() {
    let mut app = library();
    app.sort_mode = SortMode::Album;
    app.filtered_indices = vec![0, 1, 2, 3];
    app.sort_songs();
    let first = app.filtered_indices.clone();
    for t in 0..4 {
        app.cycle_sort(t);
    }
    assert_eq!(app.sort_mode, SortMode::Album);
    assert_eq!(app.filtered_indices, first);
}
