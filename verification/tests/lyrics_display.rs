use rplayer::lyrics::parser::parse_lrc;
use rplayer::lyrics::sync::LyricsSync;
use rplayer::lyrics::{lrc_path_for, needs_embedded, LyricsLine, LyricsManager};
use rplayer::ui::lyrics::{LyricsDisplay, LyricsWidget};

const PLAIN: &str = "[00:01.00]one\n[00:03.00]two\n[00:05.00]three\n";

#[test]
fn current_and_next_lines() {
    let mut m = LyricsManager::new();
    m.load("/m/song.mp3", Some(PLAIN), None);
    assert!(m.is_loaded("/m/song.mp3"));
    assert!(!m.is_loaded("/m/other.mp3"));
    let (cur, next) = m.get_current_and_next(500);
    assert!(cur.is_none());
    assert_eq!(next.map(|l| l.time()), Some(1000));
    let (cur, next) = m.get_current_and_next(3000);
    assert_eq!(cur.map(|l| l.time()), Some(3000));
    assert_eq!(next.map(|l| l.time()), Some(5000));
    let (cur, next) = m.get_current_and_next(99_000);
    assert_eq!(cur.map(|l| l.time()), Some(5000));
    assert!(next.is_none());
}

#[test]
fn external_lyrics_win_over_embedded() {
    let mut m = LyricsManager::new();
    m.load("/m/a.mp3", Some("[00:01.00]file"), Some("[00:01.00]tag"));
    match m.get_current_and_next(1000).0 {
        Some(LyricsLine::Plain { text, .. }) => assert_eq!(text, &vec!["file".to_string()]),
        _ => panic!("expected the file's line"),
    }
}

#[test]
fn embedded_lyrics_when_file_has_none() {
    let mut m = LyricsManager::new();
    m.load("/m/a.mp3", Some("no timestamps here"), Some("[00:01.00]tag"));
    match m.get_current_and_next(1000).0 {
        Some(LyricsLine::Plain { text, .. }) => assert_eq!(text, &vec!["tag".to_string()]),
        _ => panic!("expected the embedded line"),
    }
    m.load("/m/b.mp3", None, None);
    assert!(m.get_current_and_next(1000).0.is_none());
}

#[test]
fn lrc_file_sits_beside_the_song() {
    assert_eq!(lrc_path_for("/m/dir/song.mp3"), "/m/dir/song.lrc");
    assert_eq!(lrc_path_for("/m/dir/noext"), "/m/dir/noext.lrc");
    // A dot in a folder name is not the song's extension.
    assert_eq!(lrc_path_for("/m/v1.0/song"), "/m/v1.0/song.lrc");
    assert_eq!(lrc_path_for("/m/v1.0/song.flac"), "/m/v1.0/song.lrc");
    // Only `/` separates folders.
    assert_eq!(lrc_path_for("/m/x.y\\z"), "/m/x.lrc");
}

#[test]
fn display_single_line_with_preview() {
    let mut m = LyricsManager::new();
    m.load("/x.mp3", Some(PLAIN), None);
    match m.display(1500) {
        LyricsDisplay::Single { current, next } => {
            assert_eq!(current, "one");
            assert_eq!(next, Some("two".to_string()));
        }
        _ => panic!("expected a single line"),
    }
    match m.display(0) {
        LyricsDisplay::Upcoming { text } => assert_eq!(text, "one"),
        _ => panic!("expected the upcoming line"),
    }
    match m.display(6000) {
        LyricsDisplay::Single { current, next } => {
            assert_eq!(current, "three");
            assert_eq!(next, None);
        }
        _ => panic!("expected the last line"),
    }
}

#[test]
fn display_bilingual_pair() {
    let mut m = LyricsManager::new();
    m.load("/x.mp3", Some("[00:01.00]Hello\n[00:01.00]你好\n"), None);
    match m.display(1000) {
        LyricsDisplay::Pair { first, second } => {
            assert_eq!(first, "Hello");
            assert_eq!(second, "你好");
        }
        _ => panic!("expected a pair"),
    }
}

#[test]
fn display_word_timing() {
    let mut m = LyricsManager::new();
    m.load("/x.mp3", Some("[00:10.00]<00:10.00>Hello <00:10.50>World\n"), None);
    match m.display(10_200) {
        LyricsDisplay::Words { words, upcoming } => {
            assert!(!upcoming);
            assert_eq!(words, vec![("Hello ".to_string(), true), ("World".to_string(), false)]);
        }
        _ => panic!("expected timed words"),
    }
    match m.display(0) {
        LyricsDisplay::Words { words, upcoming } => {
            assert!(upcoming);
            assert_eq!(words.len(), 2);
            assert!(words.iter().all(|(_, sung)| !sung));
        }
        _ => panic!("expected upcoming timed words"),
    }
}

#[test]
fn display_without_lyrics() {
    let m = LyricsManager::new();
    assert!(matches!(m.display(0), LyricsDisplay::NoLyrics));
}

#[test]
fn sync_finds_current_line() {
    let lines = vec![(1000u64, "a".to_string()), (2000, "b".to_string()), (3000, "c".to_string())];
    assert_eq!(LyricsSync::find_current_index(&lines, 0), 0);
    assert_eq!(LyricsSync::find_current_index(&lines, 2500), 1);
    assert_eq!(LyricsSync::find_current_index(&lines, 3000), 2);
    assert_eq!(LyricsSync::new().current_index, 0);
}

#[test]
fn sync_visible_range_centres_current() {
    assert_eq!(LyricsSync::get_visible_range(20, 10, 5), (8, 13));
    assert_eq!(LyricsSync::get_visible_range(20, 1, 5), (0, 5));
    assert_eq!(LyricsSync::get_visible_range(3, 2, 5), (0, 3));
}

#[test]
fn parser_edge_cases() {
    // Metadata, blank lines and a CRLF ending are skipped or trimmed.
    let lyrics = parse_lrc("[ti:x]\r\n\r\n[00:02.50]a\r\n[bad]b\n[00:03]c\n");
    assert_eq!(lyrics.len(), 2);
    assert!(lyrics.contains_key(&2500));
    // Several timestamps on one line.
    let lyrics = parse_lrc("[00:01.00][00:02.00]chorus\n");
    assert_eq!(lyrics.len(), 2);
    assert!(lyrics.contains_key(&1000) && lyrics.contains_key(&2000));
    // Only the first two digits of a fraction count (hundredths).
    let lyrics = parse_lrc("[01:02.345]x\n");
    assert!(lyrics.contains_key(&62_340));
    // A single digit counts in tenths.
    let lyrics = parse_lrc("[00:01.5]x\n");
    assert!(lyrics.contains_key(&1_500));
}

#[test]
fn lyrics_widget_shows_line_at_position() {
    let mut m = LyricsManager::new();
    m.load("/x.mp3", Some(PLAIN), None);
    let w = LyricsWidget::new(&m, 3500);
    assert_eq!(w.position, 3500);
    match w.content() {
        LyricsDisplay::Single { current, next } => {
            assert_eq!(current, "two");
            assert_eq!(next, Some("three".to_string()));
        }
        _ => panic!("expected a single line"),
    }
}

#[test]
fn timed_words_spell_the_text_without_time_tags() {
    let lyrics = parse_lrc("[00:01.00]pre<00:01.00>a<x>b<00:02.00>c\n");
    match lyrics.get(&1000) {
        Some(LyricsLine::Timed { words, .. }) => {
            let joined: String = words.iter().map(|w| w.text.as_str()).collect();
            assert_eq!(joined, "prea<x>bc");
            assert_eq!(words.len(), 2);
            assert_eq!(words[0].start, 1000);
            assert_eq!(words[0].text, "prea<x>b");
            assert_eq!(words[1].start, 2000);
            assert_eq!(words[1].text, "c");
        }
        _ => panic!("expected a timed line"),
    }
    // No time tag among the `<...>`: the line has no words and is dropped.
    let lyrics = parse_lrc("[00:01.00]a<b>c\n");
    assert!(lyrics.is_empty());
}

#[test]
fn embedded_lyrics_only_without_lrc_lyrics() {
    assert!(needs_embedded(None));
    assert!(needs_embedded(Some("no timestamps")));
    assert!(!needs_embedded(Some("[00:01.00]line")));
}
