use tracksync::dupes::{
    album_keywords, clean, duplicate_albums, fuzzy_duplicates, group_matches, is_likely_duplicate,
    split_after_parenthesis, split_words, trim,
};
use tracksync::model::{Album, FileState, Track};
use tracksync::scan::{is_music, scan_plan, vanished_rows};

fn s(v: &str) -> String {
    v.to_string()
}

fn raw(id: &str, album: &str, ext: &str) -> (String, String, String) {
    (s(id), s(album), s(ext))
}

#[test]
fn music_extensions() {
    for name in ["a.flac", "/x/b.mp3", "c.ogg", "d.mp4", "e.m4a"] {
        assert!(is_music(&s(name)), "{}", name);
    }
    for name in ["a.wav", "flac", "a.flac.txt", "", "a.MP3"] {
        assert!(!is_music(&s(name)), "{}", name);
    }
}

#[test]
fn scan_skips_known_paths() {
    let found = vec![s("/m/a.flac"), s("/m/b.flac"), s("/m/c.mp3")];
    let plan = scan_plan(&found, &vec![false, true, false]);
    assert_eq!(plan.import, vec![s("/m/a.flac"), s("/m/c.mp3")]);
    assert_eq!(plan.duplicates, 1);
}

#[test]
fn rescan_imports_nothing() {
    let found = vec![s("/m/a.flac"), s("/m/b.flac")];
    let mut catalog: Vec<String> = vec![s("/m/b.flac")];
    let known: Vec<bool> = found.iter().map(|p| catalog.contains(p)).collect();
    let first = scan_plan(&found, &known);
    assert_eq!(first.import, vec![s("/m/a.flac")]);
    catalog.extend(first.import.clone());
    let known: Vec<bool> = found.iter().map(|p| catalog.contains(p)).collect();
    let second = scan_plan(&found, &known);
    assert!(second.import.is_empty());
    assert_eq!(second.duplicates, 2);
}

#[test]
fn vanished_files_are_dropped() {
    let mut a = Track::default();
    a.id = 1;
    let mut b = Track::default();
    b.id = 2;
    b.file_state = FileState::Copied;
    assert_eq!(vanished_rows(&vec![a, b], &vec![true, false]), vec![2]);
}

#[test]
fn parenthesis_suffix_is_dropped() {
    assert_eq!(split_after_parenthesis("Abbey Road (Remastered)"), "Abbey Road ");
    assert_eq!(split_after_parenthesis("Plain"), "Plain");
    assert_eq!(split_after_parenthesis("(Live)"), "");
}

#[test]
fn punctuation_becomes_space() {
    assert_eq!(clean("rock-n-roll!"), "rock n roll ");
    assert_eq!(clean("a:b'c.d<e>f,g[h]i?j/k(l)m"), "a b c d e f g h i j k l m");
}

#[test]
fn words_and_trim() {
    assert_eq!(split_words("  a  bc\td\n"), vec![s("a"), s("bc"), s("d")]);
    assert!(split_words("   ").is_empty());
    assert_eq!(trim("  Abbey Road \t"), "Abbey Road");
    assert_eq!(trim("   "), "");
}

#[test]
fn keywords_of_album() {
    assert_eq!(
        album_keywords("The Dark Side of the Moon (Deluxe)"),
        vec![s("Dark"), s("Side"), s("Moon")]
    );
    assert_eq!(album_keywords("Rock-n-Roll Hits"), vec![s("Rock n Roll"), s("Hits")]);
    assert!(album_keywords("Up (2002)").is_empty());
}

#[test]
fn threshold_is_inclusive() {
    assert!(is_likely_duplicate(3, 5));
    assert!(is_likely_duplicate(6, 10));
    assert!(!is_likely_duplicate(59, 100));
    assert!(is_likely_duplicate(1, 1));
    assert!(!is_likely_duplicate(0, 4));
}

#[test]
fn score_of_exactly_six_tenths_is_reported() {
    let mut seen = vec![];
    let r = fuzzy_duplicates(&vec![raw("t1", "abcde", "flac"), raw("t2", "abcxy", "mp3")], &mut seen);
    assert_eq!(r.len(), 1);
    assert_eq!((r[0].matched, r[0].size), (3, 5));
    assert_eq!(r[0].album, "abcde");
    assert_eq!(r[0].dupe, "abcxy");
    assert_eq!(r[0].format, "flac");
    assert_eq!(r[0].dupe_track_id, "t2");
    assert_eq!(seen.len(), 1);
}

#[test]
fn score_below_six_tenths_is_not_reported() {
    let a = format!("{}{}", "a".repeat(59), "b".repeat(41));
    let b = format!("{}{}", "a".repeat(59), "c".repeat(41));
    let mut seen = vec![];
    let r = fuzzy_duplicates(&vec![raw("t1", &a, "flac"), raw("t2", &b, "mp3")], &mut seen);
    assert!(r.is_empty());
    assert_eq!(seen.len(), 1);
}

#[test]
fn fuzzy_pair_reported_once() {
    let mut seen = vec![];
    let q = vec![raw("t1", "Abbey Road (Remaster)", "flac"), raw("t2", "Abbey Road", "mp3 (x)")];
    let r = fuzzy_duplicates(&q, &mut seen);
    assert_eq!(r.len(), 1);
    assert_eq!(r[0].album, "Abbey Road");
    assert_eq!(r[0].dupe, "Abbey Road");
    assert_eq!((r[0].matched, r[0].size), (10, 11));
    assert_eq!(r[0].dupe_format, "mp3 ");
    let again = fuzzy_duplicates(&q, &mut seen);
    assert!(again.is_empty());
}

#[test]
fn single_match_is_no_duplicate() {
    let mut seen = vec![];
    let r = fuzzy_duplicates(&vec![raw("t1", "Help", "flac"), raw("t2", "Help", "mp3")], &mut seen);
    assert!(r.is_empty());
    assert!(seen.is_empty());
    let g = group_matches(&vec![raw("t1", "Help", "flac"), raw("t2", "Help", "mp3")]);
    assert_eq!(g.len(), 1);
    assert_eq!(g[0].track_id, "t2");
    assert_eq!(g[0].format, "mp3");
}

#[test]
fn best_match_is_first_highest() {
    let mut seen = vec![];
    let q = vec![raw("1", "night", "a"), raw("2", "fight", "b"), raw("3", "fill", "c")];
    let r = fuzzy_duplicates(&q, &mut seen);
    assert_eq!(r.len(), 1);
    assert_eq!(r[0].album, "night");
    assert_eq!(r[0].dupe, "fight");
    assert_eq!((r[0].matched, r[0].size), (4, 5));
    assert_eq!(seen.len(), 2);
}

#[test]
fn exact_duplicates_ignore_format() {
    let album = |artist: &str, title: &str, format: &str| Album {
        artist: s(artist),
        title: s(title),
        format: s(format),
    };
    let albums = vec![
        album("Beatles", "Help", "flac"),
        album("Floyd", "Animals", "flac"),
        album("Beatles", "Help", "mp3"),
        album("Beatles", "Help", "ogg"),
        album("Floyd", "Meddle", "mp3"),
    ];
    let r = duplicate_albums(&albums);
    assert_eq!(r.len(), 1);
    assert_eq!(r[0].0.artist, "Beatles");
    assert_eq!(r[0].0.title, "Help");
    assert_eq!(r[0].1, 3);
    assert!(duplicate_albums(&vec![]).is_empty());
}
