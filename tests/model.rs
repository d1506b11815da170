use tracksync::model::{
    clean, path_extension, track_hash, BaseTrack, FileState, Track, TrackTags,
};

fn track(artist: &str, album: &str, title: &str, extension: &str) -> Track {
    Track {
        artist: artist.to_string(),
        album: album.to_string(),
        title: title.to_string(),
        extension: extension.to_string(),
        track_id: track_hash(artist, album, title, extension),
        file_state: FileState::Copied,
        ..Default::default()
    }
}

#[test]
fn file_state_codes() {
    assert_eq!(FileState::from(0), FileState::Copied);
    assert_eq!(FileState::from(1), FileState::Copying);
    assert_eq!(FileState::from(2), FileState::Unknown);
    assert_eq!(FileState::from(-7), FileState::Unknown);
    assert_eq!(FileState::Copied.code(), 0);
    assert_eq!(FileState::Copying.code(), 1);
    assert_eq!(FileState::from(FileState::Unknown.code()), FileState::Unknown);
}

#[test]
fn clean_replaces_unsafe_characters() {
    assert_eq!(clean("AC/DC: Live?", false), "AC_DC_ Live_");
    assert_eq!(clean("a.b,c;d=e[f]g|h+i*j<k>l\"m\\n", false), "a_b_c_d_e_f_g_h_i_j_k_l_m_n");
    assert_eq!(clean("a\0b", false), "a_b");
    assert_eq!(clean("song.flac", true), "song.flac");
    assert_eq!(clean("song.flac", false), "song_flac");
    assert_eq!(clean("", false), "");
}

#[test]
fn storage_path_layout() {
    let mut t = track("AC/DC", "Back. In Black", "Hells Bells", "flac");
    t.disc_number = 1;
    assert_eq!(t.storage_path("/music"), "/music/AC_DC/Back_ In Black/1/Hells Bells.flac");
    assert_eq!(t.storage_path("/music/"), "/music/AC_DC/Back_ In Black/1/Hells Bells.flac");
    assert_eq!(t.storage_path(""), "AC_DC/Back_ In Black/1/Hells Bells.flac");
    t.disc_number = -12;
    t.title = "Why? Not.".to_string();
    assert_eq!(t.storage_path("/m"), "/m/AC_DC/Back_ In Black/-12/Why_ Not..flac");
}

#[test]
fn extension_of_paths() {
    assert_eq!(path_extension("/a/b/song.flac"), Some("flac".to_string()));
    assert_eq!(path_extension("song.tar.gz"), Some("gz".to_string()));
    assert_eq!(path_extension("/a/.hidden"), None);
    assert_eq!(path_extension("/a.d/noext"), None);
    assert_eq!(path_extension("/a/b/"), None);
    assert_eq!(path_extension("x."), Some("".to_string()));
}

#[test]
fn track_hash_is_sha256_hex() {
    assert_eq!(
        track_hash("", "", "", ""),
        "e3b0c44298fc1c149afbf4c8996fb92427ae41e4649b934ca495991b7852b855"
    );
    assert_eq!(
        track_hash("a", "b", "c", ""),
        "ba7816bf8f01cfea414140de5dae2223b00361a396177a9cb410ff61f20015ad"
    );
    assert_eq!(track_hash("ab", "", "c", ""), track_hash("a", "b", "c", ""));
}

#[test]
fn identity_ignores_file_path() {
    let tags = TrackTags {
        title: Some("Song".to_string()),
        artist: Some("Artist".to_string()),
        album_title: Some("Album".to_string()),
        ..Default::default()
    };
    let a = Track::from_tags(tags.clone(), "/one/place/song.mp3".to_string());
    let b = Track::from_tags(tags.clone(), "/another/dir/song.mp3".to_string());
    assert_eq!(a.track_id, b.track_id);
    assert_ne!(a.file_path, b.file_path);
    let c = Track::from_tags(tags.clone(), "/one/place/song.flac".to_string());
    assert_ne!(a.track_id, c.track_id);
    let mut retitled = tags;
    retitled.title = Some("Song 2".to_string());
    let d = Track::from_tags(retitled, "/one/place/song.mp3".to_string());
    assert_ne!(a.track_id, d.track_id);
}

#[test]
fn from_tags_defaults() {
    let t = Track::from_tags(TrackTags::default(), "/x/noext".to_string());
    assert_eq!(t.title, "Unknown Title");
    assert_eq!(t.artist, "Unknown Album");
    assert_eq!(t.album, "Unknown Album");
    assert_eq!(t.extension, "NONE");
    assert_eq!(t.number, 0);
    assert_eq!(t.file_state, FileState::Unknown);
    assert_eq!(t.track_id, track_hash("Unknown Album", "Unknown Album", "Unknown Title", "NONE"));
    assert_eq!(t.track_id.len(), 64);
}

#[test]
fn from_tags_prefers_album_artist() {
    let tags = TrackTags {
        title: Some("T".to_string()),
        artist: Some("Solo".to_string()),
        album_artist: Some("Band".to_string()),
        album_title: Some("LP".to_string()),
        track_number: Some(7),
        disc_number: Some(2),
        disc_total: Some(3),
    };
    let t = Track::from_tags(tags, "/m/t.ogg".to_string());
    assert_eq!(t.artist, "Band");
    assert_eq!(t.number, 7);
    assert_eq!(t.disc_number, 2);
    assert_eq!(t.disc_total, 3);
    assert_eq!(t.extension, "ogg");
    assert_eq!(t.track_id, track_hash("Band", "LP", "T", "ogg"));
    let only_artist = TrackTags { artist: Some("Solo".to_string()), ..Default::default() };
    assert_eq!(Track::from_tags(only_artist, "/m/a.mp3".to_string()).artist, "Solo");
}

#[test]
fn base_track_keeps_public_attributes() {
    let mut t = track("A", "B", "C", "mp3");
    t.file_path = "/p/c.mp3".to_string();
    t.number = 4;
    let b: BaseTrack = t.into();
    assert_eq!(b.artist, "A");
    assert_eq!(b.album, "B");
    assert_eq!(b.title, "C");
    assert_eq!(b.number, 4);
    assert_eq!(b.file_path, "/p/c.mp3");
    assert_eq!(b.extension, "mp3");
}

#[test]
fn describe_track() {
    let t = track("Queen", "Jazz", "Mustapha", "flac");
    assert_eq!(t.describe(), "Mustapha - Jazz,  Queen");
}
