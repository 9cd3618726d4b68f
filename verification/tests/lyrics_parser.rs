use rplayer::lyrics::parser::parse_lrc;
use rplayer::lyrics::LyricsLine;
use std::time::Duration;

/// Lyrics are keyed by milliseconds.
fn ms(d: Duration) -> u64 {
    d.as_millis() as u64
}

#[test]
fn test_parse_simple_lrc() {
    let lrc = r#"
[00:12.00]Line one
[00:17.20]Line two
[01:23.45]Line three
"#;
    let lyrics = parse_lrc(lrc);
    assert_eq!(lyrics.len(), 3);
    match lyrics.get(&ms(Duration::from_millis(12000))) {
        Some(LyricsLine::Plain { text, .. }) => {
            assert_eq!(text, &vec!["Line one".to_string()]);
        }
        _ => panic!("Expected Plain line"),
    }
}

#[test]
fn test_parse_with_metadata() {
    let lrc = r#"
[ti:Song Title]
[ar:Artist]
[00:01.00]First line
"#;
    let lyrics = parse_lrc(lrc);
    assert_eq!(lyrics.len(), 1);
}

#[test]
fn test_parse_bilingual_lrc() {
    let lrc = r#"
[00:14.71]甘い潮风がまた手招きしてる
[00:14.71]香甜的海风 又开始对我招手
[00:22.77]夕凪に响く 「待ってよ」
[00:22.77]在夕凪中回响著"等等我喔"
"#;
    let lyrics = parse_lrc(lrc);
    assert_eq!(lyrics.len(), 2);
    match lyrics.get(&ms(Duration::from_millis(14710))) {
        Some(LyricsLine::Plain { text, .. }) => {
            assert_eq!(text.len(), 2);
            assert_eq!(text[0], "甘い潮风がまた手招きしてる");
            assert_eq!(text[1], "香甜的海风 又开始对我招手");
        }
        _ => panic!("Expected Plain line"),
    }
}

#[test]
fn test_parse_enhanced_lrc() {
    let lrc = "[00:14.71]<00:14.71>甘<00:14.95>い<00:15.10>潮<00:15.30>风<00:15.55>が<00:15.80>ま<00:16.00>た<00:16.20>手<00:16.45>招<00:16.70>き<00:16.95>し<00:17.20>て<00:17.45>る";
    let lyrics = parse_lrc(lrc);
    assert_eq!(lyrics.len(), 1);

    match lyrics.get(&ms(Duration::from_millis(14710))) {
        Some(LyricsLine::Timed { words, .. }) => {
            assert_eq!(words.len(), 13);
            assert_eq!(words[0].text, "甘");
            assert_eq!(words[0].start, ms(Duration::from_millis(14710)));
            assert_eq!(words[1].text, "い");
            assert_eq!(words[1].start, ms(Duration::from_millis(14950)));
            assert_eq!(words[12].text, "る");
            assert_eq!(words[12].start, ms(Duration::from_millis(17450)));
        }
        _ => panic!("Expected Timed line"),
    }
}

#[test]
fn test_parse_enhanced_lrc_multiline() {
    let lrc = r#"
[00:14.71]<00:14.71>甘<00:14.95>い<00:15.10>潮风
[00:17.20]<00:17.20>夕凪に响く
[00:22.00]<00:22.00>待ってよ
"#;
    let lyrics = parse_lrc(lrc);
    assert_eq!(lyrics.len(), 3);

    assert!(lyrics.get(&ms(Duration::from_millis(14710))).unwrap().is_timed());
    assert!(lyrics.get(&ms(Duration::from_millis(17200))).unwrap().is_timed());
    assert!(lyrics.get(&ms(Duration::from_millis(22000))).unwrap().is_timed());
}

#[test]
fn test_parse_enhanced_lrc_words() {
    let lrc = "[00:10.00]<00:10.00>Hello <00:10.50>World<00:11.00>!";
    let lyrics = parse_lrc(lrc);
    match lyrics.get(&ms(Duration::from_millis(10000))) {
        Some(LyricsLine::Timed { words, .. }) => {
            assert_eq!(words.len(), 3);
            assert_eq!(words[0].text, "Hello ");
            assert_eq!(words[0].start, ms(Duration::from_millis(10000)));
            assert_eq!(words[1].text, "World");
            assert_eq!(words[1].start, ms(Duration::from_millis(10500)));
            assert_eq!(words[2].text, "!");
            assert_eq!(words[2].start, ms(Duration::from_millis(11000)));
        }
        _ => panic!("Expected Timed line"),
    }
}
