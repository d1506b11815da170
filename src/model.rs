//! Tracks, their content-derived identity and their storage location.

use vstd::prelude::*;
use crate::text::{decimal, decimal_of, push_all, slice_chars};

verus! {

/// Lifecycle marker of a track row: `Copying` is the crash checkpoint that
/// the copy pipeline writes before the content transfer, `Copied` the commit.
#[derive(Debug, Clone, Copy, PartialEq, Eq, Structural, Default)]
pub enum FileState {
    #[default]
    Copied,
    Copying,
    Unknown,
}

/// The state that a persisted code stands for: 0 is `Copied`, 1 is
/// `Copying`, every other code `Unknown`.
pub open spec fn state_of_code(code: int) -> FileState {
    if code == 0 {
        FileState::Copied
    } else if code == 1 {
        FileState::Copying
    } else {
        FileState::Unknown
    }
}

impl From<i64> for FileState {
    fn from(value: i64) -> (r: FileState) {
        if value == 0 {
            FileState::Copied
        } else if value == 1 {
            FileState::Copying
        } else {
            FileState::Unknown
        }
    }
}

impl vstd::std_specs::convert::FromSpecImpl<i64> for FileState {
    open spec fn obeys_from_spec() -> bool {
        true
    }

    open spec fn from_spec(v: i64) -> FileState {
        state_of_code(v as int)
    }
}

impl FileState {
    /// The code under which the state is persisted.
    pub open spec fn spec_code(self) -> int {
        match self {
            FileState::Copied => 0,
            FileState::Copying => 1,
            FileState::Unknown => 2,
        }
    }

    pub fn code(&self) -> (r: i64)
        ensures
            r == self.spec_code(),
            state_of_code(r as int) == *self,
    {
        match self {
            FileState::Copied => 0,
            FileState::Copying => 1,
            FileState::Unknown => 2,
        }
    }
}

/// The attributes of a track that a filter predicate sees.
#[derive(Debug, Clone, Default)]
pub struct BaseTrack {
    pub title: String,
    pub artist: String,
    pub album: String,
    pub number: i64,
    pub file_path: String,
    pub disc_number: i64,
    pub disc_total: i64,
    pub extension: String,
}

/// One media file known to a catalog.
#[derive(Debug, Clone, Default)]
pub struct Track {
    /// Store-local surrogate key.
    pub id: i64,
    /// Content-derived identity, the key shared by all catalogs.
    pub track_id: String,
    pub title: String,
    pub artist: String,
    pub album: String,
    pub number: i64,
    pub file_path: String,
    pub disc_number: i64,
    pub disc_total: i64,
    pub file_state: FileState,
    pub extension: String,
}

impl From<Track> for BaseTrack {
    fn from(value: Track) -> (r: BaseTrack) {
        BaseTrack {
            title: value.title,
            artist: value.artist,
            album: value.album,
            number: value.number,
            file_path: value.file_path,
            disc_number: value.disc_number,
            disc_total: value.disc_total,
            extension: value.extension,
        }
    }
}

impl vstd::std_specs::convert::FromSpecImpl<Track> for BaseTrack {
    open spec fn obeys_from_spec() -> bool {
        true
    }

    open spec fn from_spec(v: Track) -> BaseTrack {
        BaseTrack {
            title: v.title,
            artist: v.artist,
            album: v.album,
            number: v.number,
            file_path: v.file_path,
            disc_number: v.disc_number,
            disc_total: v.disc_total,
            extension: v.extension,
        }
    }
}

/// An album as the catalog lists it: one row per artist, title and format.
#[derive(Debug, Clone)]
pub struct Album {
    pub title: String,
    pub artist: String,
    pub format: String,
}

/// Characters that may not stand in a storage path segment. A period is
/// allowed only in the final file name segment.
pub open spec fn is_unsafe_char(c: char, is_file: bool) -> bool {
    c == '"' || c == '/' || c == '*' || c == ':' || c == '<' || c == '>' || c == '?'
        || c == '\\' || c == '|' || c == '+' || c == ',' || (!is_file && c == '.') || c == ';'
        || c == '=' || c == '[' || c == ']' || c == '\0'
}

/// `s` with each unsafe character replaced by an underscore.
pub open spec fn cleaned(s: Seq<char>, is_file: bool) -> Seq<char> {
    s.map_values(|c: char| if is_unsafe_char(c, is_file) { '_' } else { c })
}

/// Replaces each character of `s` that is unsafe in a path segment by `_`.
pub fn clean(s: &str, is_file: bool) -> (r: String)
    ensures
        r@ == cleaned(s@, is_file),
{
    let n = s.unicode_len();
    let mut r = String::new();
    let mut i: usize = 0;
    while i < n
        invariant
            n == s@.len(),
            i <= n,
            r@ == cleaned(s@.subrange(0, i as int), is_file),
        decreases n - i,
    {
        let c = s.get_char(i);
        let unsafe_char = c == '"' || c == '/' || c == '*' || c == ':' || c == '<' || c == '>'
            || c == '?' || c == '\\' || c == '|' || c == '+' || c == ',' || (!is_file && c == '.')
            || c == ';' || c == '=' || c == '[' || c == ']' || c == '\0';
        if unsafe_char {
            r.push('_');
        } else {
            r.push(c);
        }
        assert(s@.subrange(0, i + 1) =~= s@.subrange(0, i as int).push(c));
        assert(r@ =~= cleaned(s@.subrange(0, i + 1), is_file));
        i = i + 1;
    }
    assert(s@.subrange(0, n as int) =~= s@);
    r
}

/// `seg` appended to `path` as a new path segment, the way `PathBuf::push`
/// joins a relative segment.
pub open spec fn join(path: Seq<char>, seg: Seq<char>) -> Seq<char> {
    if path.len() == 0 {
        seg
    } else if path.last() == '/' {
        path + seg
    } else {
        path + seq!['/'] + seg
    }
}

fn push_segment(path: &mut String, seg: &str)
    ensures
        final(path)@ == join(old(path)@, seg@),
{
    let n = path.unicode_len();
    if n == 0 {
        push_all(path, seg);
    } else if path.as_str().get_char(n - 1) == '/' {
        push_all(path, seg);
    } else {
        path.push('/');
        push_all(path, seg);
    }
}

/// Where a track with these attributes is stored under `base`:
/// `base/artist/album/disc/title.extension`, each segment cleaned.
pub open spec fn storage_path_of(
    base: Seq<char>,
    artist: Seq<char>,
    album: Seq<char>,
    disc_number: int,
    title: Seq<char>,
    extension: Seq<char>,
) -> Seq<char> {
    join(
        join(
            join(join(base, cleaned(artist, false)), cleaned(album, false)),
            cleaned(decimal_of(disc_number), false),
        ),
        cleaned(title + seq!['.'] + extension, true),
    )
}

/// The characters of a file name segment after its final period; none when
/// the segment has no period, or only a leading one.
pub open spec fn extension_of(path: Seq<char>) -> Option<Seq<char>> {
    let name = path.subrange(last_slash_end(path, path.len() as int), path.len() as int);
    let dot = last_dot(name, name.len() as int);
    if dot <= 0 {
        None
    } else {
        Some(name.subrange(dot + 1, name.len() as int))
    }
}

/// The index just past the last `/` among the first `n` characters, or 0.
pub open spec fn last_slash_end(s: Seq<char>, n: int) -> int
    decreases n,
{
    if n <= 0 {
        0
    } else if s[n - 1] == '/' {
        n
    } else {
        last_slash_end(s, n - 1)
    }
}

/// The index of the last `.` among the first `n` characters, or -1.
pub open spec fn last_dot(s: Seq<char>, n: int) -> int
    decreases n,
{
    if n <= 0 {
        -1
    } else if s[n - 1] == '.' {
        n - 1
    } else {
        last_dot(s, n - 1)
    }
}

proof fn lemma_last_dot_bounds(s: Seq<char>, n: int)
    requires
        0 <= n <= s.len(),
    ensures
        -1 <= last_dot(s, n) < n,
    decreases n,
{
    if n > 0 && s[n - 1] != '.' {
        lemma_last_dot_bounds(s, n - 1);
    }
}

/// The extension of the file that `path` names, if it has one.
pub fn path_extension(path: &str) -> (r: Option<String>)
    ensures
        r is Some <==> extension_of(path@) is Some,
        r is Some ==> r->0@ == extension_of(path@)->0,
{
    let n = path.unicode_len();
    let mut start: usize = n;
    while start > 0 && path.get_char(start - 1) != '/'
        invariant
            n == path@.len(),
            start <= n,
            last_slash_end(path@, n as int) == last_slash_end(path@, start as int),
        decreases start,
    {
        start = start - 1;
    }
    let name = slice_chars(path, start, n);
    let m = name.unicode_len();
    let mut dot: usize = m;
    while dot > 0 && name.as_str().get_char(dot - 1) != '.'
        invariant
            m == name@.len(),
            dot <= m,
            last_dot(name@, m as int) == last_dot(name@, dot as int),
        decreases dot,
    {
        dot = dot - 1;
    }
    proof {
        lemma_last_dot_bounds(name@, m as int);
    }
    if dot <= 1 {
        None
    } else {
        Some(slice_chars(name.as_str(), dot, m))
    }
}

/// The tag values read from a media file; absent tags are `None`.
#[derive(Debug, Clone, Default)]
pub struct TrackTags {
    pub title: Option<String>,
    pub artist: Option<String>,
    pub album_artist: Option<String>,
    pub album_title: Option<String>,
    pub track_number: Option<u16>,
    pub disc_number: Option<u16>,
    pub disc_total: Option<u16>,
}

/// The artist a track is filed under: the album artist, else the artist.
pub open spec fn artist_of(tags: TrackTags) -> Seq<char> {
    match tags.album_artist {
        Some(a) => a@,
        None => match tags.artist {
            Some(a) => a@,
            None => "Unknown Album"@,
        },
    }
}

/// Names the lowercase hex SHA-256 digest of the UTF-8 bytes of a text.
pub uninterp spec fn sha256_hex(s: Seq<char>) -> Seq<char>;

/// Relies on `sha256::digest` for `&str`: `hex::encode` of the SHA-256 of the
/// string's bytes, 32 bytes and so 64 hex digits, a function of the text alone.
#[verifier::external_body]
fn sha256_digest(s: &str) -> (r: String)
    ensures
        r@ == sha256_hex(s@),
        r@.len() == 64,
{
    sha256::digest(s)
}

/// The identity of a track: the digest of artist, album, title and
/// extension written one after the other, without separators.
pub open spec fn track_identity(
    artist: Seq<char>,
    album: Seq<char>,
    title: Seq<char>,
    extension: Seq<char>,
) -> Seq<char> {
    sha256_hex(artist + album + title + extension)
}

impl Track {
    /// The identity that the attributes of this track give.
    pub open spec fn spec_identity(self) -> Seq<char> {
        track_identity(self.artist@, self.album@, self.title@, self.extension@)
    }

    /// Where this track is stored under `base`.
    pub open spec fn spec_storage_path(self, base: Seq<char>) -> Seq<char> {
        storage_path_of(
            base,
            self.artist@,
            self.album@,
            self.disc_number as int,
            self.title@,
            self.extension@,
        )
    }

    /// `title - album,  artist`, the way a track is named to the user.
    pub fn describe(&self) -> (r: String)
        ensures
            r@ == self.title@ + " - "@ + self.album@ + ",  "@ + self.artist@,
    {
        let mut r = self.title.clone();
        push_all(&mut r, " - ");
        push_all(&mut r, self.album.as_str());
        push_all(&mut r, ",  ");
        push_all(&mut r, self.artist.as_str());
        r
    }

    /// A field-by-field copy of the track.
    pub fn copy(&self) -> (r: Track)
        ensures
            r == *self,
    {
        Track {
            id: self.id,
            track_id: self.track_id.clone(),
            title: self.title.clone(),
            artist: self.artist.clone(),
            album: self.album.clone(),
            number: self.number,
            file_path: self.file_path.clone(),
            disc_number: self.disc_number,
            disc_total: self.disc_total,
            file_state: self.file_state,
            extension: self.extension.clone(),
        }
    }

    /// The deterministic location of this track below `base`:
    /// `base/artist/album/disc_number/title.extension`, each segment with
    /// its unsafe characters replaced.
    pub fn storage_path(&self, base: &str) -> (r: String)
        ensures
            r@ == self.spec_storage_path(base@),
    {
        let mut p = String::from_str(base);
        let artist = clean(self.artist.as_str(), false);
        push_segment(&mut p, artist.as_str());
        let album = clean(self.album.as_str(), false);
        push_segment(&mut p, album.as_str());
        let disc = decimal(self.disc_number);
        let disc = clean(disc.as_str(), false);
        push_segment(&mut p, disc.as_str());
        let mut filename = self.title.clone();
        filename.push('.');
        push_all(&mut filename, self.extension.as_str());
        let filename = clean(filename.as_str(), true);
        push_segment(&mut p, filename.as_str());
        p
    }

    /// A catalog row for the media file at `path` with the tags read from
    /// it, in state `Unknown` and with its identity computed.
    pub fn from_tags(tags: TrackTags, path: String) -> (r: Track)
        ensures
            r.title@ == (match tags.title { Some(t) => t@, None => "Unknown Title"@ }),
            r.artist@ == artist_of(tags),
            r.album@ == (match tags.album_title { Some(t) => t@, None => "Unknown Album"@ }),
            r.number == (match tags.track_number { Some(n) => n as i64, None => 0 }),
            r.disc_number == (match tags.disc_number { Some(n) => n as i64, None => 0 }),
            r.disc_total == (match tags.disc_total { Some(n) => n as i64, None => 0 }),
            r.file_path == path,
            r.extension@ == (match extension_of(path@) { Some(e) => e, None => "NONE"@ }),
            r.file_state == FileState::Unknown,
            r.id == 0,
            r.track_id@ == r.spec_identity(),
    {
        let artist = match tags.album_artist {
            Some(a) => a,
            None => match tags.artist {
                Some(a) => a,
                None => String::from_str("Unknown Album"),
            },
        };
        let title = match tags.title {
            Some(t) => t,
            None => String::from_str("Unknown Title"),
        };
        let album = match tags.album_title {
            Some(t) => t,
            None => String::from_str("Unknown Album"),
        };
        let number: i64 = match tags.track_number {
            Some(n) => n as i64,
            None => 0,
        };
        let disc_number: i64 = match tags.disc_number {
            Some(n) => n as i64,
            None => 0,
        };
        let disc_total: i64 = match tags.disc_total {
            Some(n) => n as i64,
            None => 0,
        };
        let extension = match path_extension(path.as_str()) {
            Some(e) => e,
            None => String::from_str("NONE"),
        };
        let track_id = track_hash(artist.as_str(), album.as_str(), title.as_str(), extension.as_str());
        Track {
            id: 0,
            track_id,
            title,
            artist,
            album,
            number,
            file_path: path,
            disc_number,
            disc_total,
            file_state: FileState::Unknown,
            extension,
        }
    }
}

/// The identity of a track with these attributes.
pub fn track_hash(artist: &str, album: &str, title: &str, extension: &str) -> (r: String)
    ensures
        r@ == track_identity(artist@, album@, title@, extension@),
        r@.len() == 64,
{
    let mut key = String::from_str(artist);
    push_all(&mut key, album);
    push_all(&mut key, title);
    push_all(&mut key, extension);
    sha256_digest(key.as_str())
}

/// A track's identity depends only on its artist, album, title and
/// extension: two tracks that agree on those four fields have the same
/// identity, whatever their paths, local ids or states.
pub proof fn lemma_identity_ignores_path(a: Track, b: Track)
    requires
        a.artist@ == b.artist@,
        a.album@ == b.album@,
        a.title@ == b.title@,
        a.extension@ == b.extension@,
    ensures
        a.spec_identity() == b.spec_identity(),
{
}

} // verus!
