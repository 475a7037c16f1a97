use musicsloth::metadata::parser::{clean_values, contains_text, is_blank, is_lyrics_key, parse_artists, parse_genres, parse_multi_value, trim};

#[test]
fn test_comma_separator() {
    assert_eq!(
        parse_multi_value("Artist A, Artist B, Artist C"),
        vec!["Artist A", "Artist B", "Artist C"]
    );
}

#[test]
fn test_semicolon_separator() {
    assert_eq!(
        parse_multi_value("Rock; Blues; Jazz"),
        vec!["Rock", "Blues", "Jazz"]
    );
}

#[test]
fn test_ampersand_separator() {
    assert_eq!(
        parse_multi_value("Artist A & Artist B"),
        vec!["Artist A", "Artist B"]
    );
}

#[test]
fn test_ft_separator() {
    assert_eq!(
        parse_multi_value("Artist A ft. Artist B"),
        vec!["Artist A", "Artist B"]
    );
    assert_eq!(
        parse_multi_value("Artist A feat. Artist B"),
        vec!["Artist A", "Artist B"]
    );
    assert_eq!(
        parse_multi_value("Artist A featuring Artist B"),
        vec!["Artist A", "Artist B"]
    );
}

#[test]
fn test_mixed_separators() {
    assert_eq!(
        parse_multi_value("Artist A, Artist B & Artist C ft. Artist D"),
        vec!["Artist A", "Artist B", "Artist C", "Artist D"]
    );
}

#[test]
fn test_japanese_comma() {
    assert_eq!(
        parse_multi_value("アーティストA、アーティストB"),
        vec!["アーティストA", "アーティストB"]
    );
}

#[test]
fn test_slash_pipe_separators() {
    assert_eq!(
        parse_multi_value("Rock / Metal | Blues"),
        vec!["Rock", "Metal", "Blues"]
    );
}

#[test]
fn test_empty_string() {
    assert_eq!(parse_multi_value(""), Vec::<String>::new());
}

#[test]
fn test_single_value() {
    assert_eq!(parse_multi_value("Single Artist"), vec!["Single Artist"]);
}

#[test]
fn test_whitespace_trimming() {
    assert_eq!(
        parse_multi_value("  Artist A  ,  Artist B  "),
        vec!["Artist A", "Artist B"]
    );
}

#[test]
fn artists_and_genres_parse_alike() {
    assert_eq!(parse_artists("A & B"), vec!["A", "B"]);
    assert_eq!(parse_genres("Rock;Pop"), vec!["Rock", "Pop"]);
    assert_eq!(parse_artists("A & B"), parse_multi_value("A & B"));
}

#[test]
fn separators_alone_give_nothing() {
    assert_eq!(parse_multi_value(",;/|&"), Vec::<String>::new());
    assert_eq!(parse_multi_value("   "), Vec::<String>::new());
    assert_eq!(parse_multi_value(" , "), Vec::<String>::new());
}

#[test]
fn featuring_needs_white_space_on_both_sides() {
    assert_eq!(parse_multi_value("Daft Punk"), vec!["Daft Punk"]);
    assert_eq!(parse_multi_value("Aft. B"), vec!["Aft. B"]);
    assert_eq!(parse_multi_value("A ft B"), vec!["A", "B"]);
    assert_eq!(parse_multi_value("A feat B"), vec!["A", "B"]);
    assert_eq!(parse_multi_value("A Feat. B"), vec!["A Feat. B"]);
    assert_eq!(parse_multi_value("A ft ft B"), vec!["A", "ft B"]);
}

#[test]
fn trim_strips_both_ends_and_nothing_within() {
    assert_eq!(trim("  a b \t\n"), "a b");
    assert_eq!(trim("a"), "a");
    assert_eq!(trim(""), "");
    assert_eq!(trim(" \u{3000} "), "");
    assert_eq!(trim("\u{a0}x\u{2003}"), "x");
    assert_eq!(trim("  アーティスト  "), "アーティスト");
}

#[test]
fn clean_values_drops_empty_pieces_in_order() {
    let pieces = vec![" a ".to_string(), "".to_string(), "  ".to_string(), "b".to_string()];
    assert_eq!(clean_values(pieces), vec!["a", "b"]);
    assert_eq!(clean_values(Vec::new()), Vec::<String>::new());
}

#[test]
fn blank_texts() {
    assert!(is_blank(""));
    assert!(is_blank(" \t\r\n"));
    assert!(!is_blank(" [00:01.00] la "));
}

#[test]
fn text_is_found_wherever_it_stands() {
    assert!(contains_text("unsyncedlyrics", "lyric"));
    assert!(contains_text("lyric", "lyric"));
    assert!(contains_text("xlyric", "lyric"));
    assert!(contains_text("lyricx", "lyric"));
    assert!(!contains_text("lyri", "lyric"));
    assert!(!contains_text("lyrXic", "lyric"));
    assert!(!contains_text("", "lyric"));
    assert!(contains_text("", ""));
    assert!(contains_text("abc", ""));
    assert!(contains_text("歌詞lyric歌詞", "lyric"));
    assert!(contains_text("ababac", "abac"));
}

#[test]
fn lyrics_keys_are_known_by_their_name() {
    assert!(is_lyrics_key("Lyrics"));
    assert!(is_lyrics_key("Unknown(\"UNSYNCEDLYRICS\")"));
    assert!(is_lyrics_key("lyricist"));
    assert!(!is_lyrics_key("TrackTitle"));
    assert!(!is_lyrics_key(""));
}
