//! Detection of albums stored more than once: fuzzy matching of album names
//! scored by longest common subsequence, and exact grouping by artist and
//! title.

use vstd::prelude::*;
use crate::model::Album;
use crate::text::{is_space, slice_chars, space};

verus! {

broadcast use vstd::seq_lib::group_seq_properties;

/// `s` up to its first `(`, or all of it.
pub open spec fn before_parenthesis(s: Seq<char>) -> Seq<char> {
    s.subrange(0, first_paren(s, 0))
}

/// The index of the first `(` at or after `i`, or the length.
pub open spec fn first_paren(s: Seq<char>, i: int) -> int
    decreases s.len() - i,
{
    if i >= s.len() {
        s.len() as int
    } else if s[i] == '(' {
        i
    } else {
        first_paren(s, i + 1)
    }
}

proof fn lemma_first_paren_bounds(s: Seq<char>, i: int)
    requires
        0 <= i <= s.len(),
    ensures
        i <= first_paren(s, i) <= s.len(),
    decreases s.len() - i,
{
    if i < s.len() && s[i] != '(' {
        lemma_first_paren_bounds(s, i + 1);
    }
}

/// Drops a trailing parenthetical suffix: everything from the first `(`.
pub fn split_after_parenthesis(s: &str) -> (r: String)
    ensures
        r@ == before_parenthesis(s@),
{
    let n = s.unicode_len();
    let mut i: usize = 0;
    while i < n && s.get_char(i) != '('
        invariant
            n == s@.len(),
            i <= n,
            first_paren(s@, 0) == first_paren(s@, i as int),
        decreases n - i,
    {
        i = i + 1;
    }
    slice_chars(s, 0, i)
}

/// Punctuation that keyword extraction turns into spaces.
pub open spec fn is_punctuation(c: char) -> bool {
    c == '(' || c == ')' || c == ':' || c == '\'' || c == '.' || c == '<' || c == '>' || c == ','
        || c == '-' || c == '[' || c == ']' || c == '?' || c == '/' || c == '!'
}

/// `s` with each punctuation character replaced by a space.
pub open spec fn unpunctuated(s: Seq<char>) -> Seq<char> {
    s.map_values(|c: char| if is_punctuation(c) { ' ' } else { c })
}

/// Replaces each punctuation character of `s` by a space.
pub fn clean(s: &str) -> (r: String)
    ensures
        r@ == unpunctuated(s@),
{
    let n = s.unicode_len();
    let mut r = String::new();
    let mut i: usize = 0;
    while i < n
        invariant
            n == s@.len(),
            i <= n,
            r@ == unpunctuated(s@.subrange(0, i as int)),
        decreases n - i,
    {
        let c = s.get_char(i);
        let p = c == '(' || c == ')' || c == ':' || c == '\'' || c == '.' || c == '<' || c == '>'
            || c == ',' || c == '-' || c == '[' || c == ']' || c == '?' || c == '/' || c == '!';
        if p {
            r.push(' ');
        } else {
            r.push(c);
        }
        assert(s@.subrange(0, i + 1) =~= s@.subrange(0, i as int).push(c));
        assert(r@ =~= unpunctuated(s@.subrange(0, i + 1)));
        i = i + 1;
    }
    assert(s@.subrange(0, n as int) =~= s@);
    r
}

/// The words of `s` read so far, and the word being read.
pub open spec fn scan_words(s: Seq<char>) -> (Seq<Seq<char>>, Seq<char>)
    decreases s.len(),
{
    if s.len() == 0 {
        (Seq::empty(), Seq::empty())
    } else {
        let (done, cur) = scan_words(s.drop_last());
        let c = s.last();
        if is_space(c) {
            if cur.len() > 0 {
                (done.push(cur), Seq::empty())
            } else {
                (done, cur)
            }
        } else {
            (done, cur.push(c))
        }
    }
}

/// The maximal runs of non-whitespace characters of `s`, in order.
pub open spec fn words(s: Seq<char>) -> Seq<Seq<char>> {
    let (done, cur) = scan_words(s);
    if cur.len() > 0 {
        done.push(cur)
    } else {
        done
    }
}

/// The words of `s`, separated by whitespace.
pub fn split_words(s: &str) -> (r: Vec<String>)
    ensures
        r@.map_values(|w: String| w@) == words(s@),
{
    let n = s.unicode_len();
    let mut done: Vec<String> = Vec::new();
    let mut cur = String::new();
    let mut i: usize = 0;
    while i < n
        invariant
            n == s@.len(),
            i <= n,
            (done@.map_values(|w: String| w@), cur@) == scan_words(s@.subrange(0, i as int)),
        decreases n - i,
    {
        let c = s.get_char(i);
        let ghost prev = done@;
        assert(s@.subrange(0, i + 1).drop_last() =~= s@.subrange(0, i as int));
        if space(c) {
            if cur.unicode_len() > 0 {
                done.push(cur);
                assert(done@.map_values(|w: String| w@) =~= prev.map_values(|w: String| w@).push(
                    scan_words(s@.subrange(0, i as int)).1,
                ));
                cur = String::new();
            }
        } else {
            cur.push(c);
        }
        i = i + 1;
    }
    assert(s@.subrange(0, n as int) =~= s@);
    if cur.unicode_len() > 0 {
        let ghost prev = done@;
        done.push(cur);
        assert(done@.map_values(|w: String| w@) =~= prev.map_values(|w: String| w@).push(scan_words(s@).1));
    }
    done
}

/// The keywords of an album title: without its parenthetical suffix, the
/// words longer than three characters, each with punctuation replaced.
pub open spec fn keywords_of(title: Seq<char>) -> Seq<Seq<char>> {
    words(before_parenthesis(title)).filter(|w: Seq<char>| w.len() > 3).map_values(
        |w: Seq<char>| unpunctuated(w),
    )
}

/// The keywords that the fuzzy query for an album title uses.
pub fn album_keywords(title: &str) -> (r: Vec<String>)
    ensures
        r@.map_values(|w: String| w@) == keywords_of(title@),
{
    let album = split_after_parenthesis(title);
    let ws = split_words(album.as_str());
    let ghost all = ws@.map_values(|w: String| w@);
    let mut r: Vec<String> = Vec::new();
    let mut i: usize = 0;
    while i < ws.len()
        invariant
            i <= ws@.len(),
            all == ws@.map_values(|w: String| w@),
            r@.map_values(|w: String| w@) == all.subrange(0, i as int).filter(|w: Seq<char>| w.len() > 3).map_values(
                |w: Seq<char>| unpunctuated(w),
            ),
        decreases ws.len() - i,
    {
        let ghost prev = r@;
        let w = &ws[i];
        assert(all.subrange(0, i + 1) =~= all.subrange(0, i as int).push(w@));
        proof {
            all.subrange(0, i as int).lemma_filter_push(w@, |w: Seq<char>| w.len() > 3);
        }
        if w.as_str().unicode_len() > 3 {
            let k = clean(w.as_str());
            r.push(k);
            assert(r@.map_values(|w: String| w@) =~= prev.map_values(|w: String| w@).push(unpunctuated(w@)));
        }
        i = i + 1;
    }
    assert(all.subrange(0, all.len() as int) =~= all);
    r
}

/// The index of the first non-whitespace character at or after `i`, or
/// the length.
pub open spec fn lead_end(s: Seq<char>, i: int) -> int
    decreases s.len() - i,
{
    if i >= s.len() {
        s.len() as int
    } else if is_space(s[i]) {
        lead_end(s, i + 1)
    } else {
        i
    }
}

/// The index just past the last non-whitespace character among the first
/// `n`, or 0.
pub open spec fn trail_start(s: Seq<char>, n: int) -> int
    decreases n,
{
    if n <= 0 {
        0
    } else if is_space(s[n - 1]) {
        trail_start(s, n - 1)
    } else {
        n
    }
}

/// `s` without leading and trailing whitespace.
pub open spec fn trimmed(s: Seq<char>) -> Seq<char> {
    let a = lead_end(s, 0);
    let b = trail_start(s, s.len() as int);
    if a >= b {
        Seq::empty()
    } else {
        s.subrange(a, b)
    }
}

proof fn lemma_lead_end_bounds(s: Seq<char>, i: int)
    requires
        0 <= i <= s.len(),
    ensures
        i <= lead_end(s, i) <= s.len(),
    decreases s.len() - i,
{
    if i < s.len() && is_space(s[i]) {
        lemma_lead_end_bounds(s, i + 1);
    }
}

proof fn lemma_trail_start_bounds(s: Seq<char>, n: int)
    requires
        0 <= n <= s.len(),
    ensures
        0 <= trail_start(s, n) <= n,
    decreases n,
{
    if n > 0 && is_space(s[n - 1]) {
        lemma_trail_start_bounds(s, n - 1);
    }
}

/// `s` without leading and trailing whitespace.
pub fn trim(s: &str) -> (r: String)
    ensures
        r@ == trimmed(s@),
{
    let n = s.unicode_len();
    let mut a: usize = 0;
    while a < n && space(s.get_char(a))
        invariant
            n == s@.len(),
            a <= n,
            lead_end(s@, 0) == lead_end(s@, a as int),
        decreases n - a,
    {
        a = a + 1;
    }
    let mut b: usize = n;
    while b > 0 && space(s.get_char(b - 1))
        invariant
            n == s@.len(),
            b <= n,
            trail_start(s@, n as int) == trail_start(s@, b as int),
        decreases b,
    {
        b = b - 1;
    }
    proof {
        lemma_lead_end_bounds(s@, a as int);
        lemma_trail_start_bounds(s@, b as int);
    }
    if a >= b {
        String::new()
    } else {
        slice_chars(s, a, b)
    }
}

/// The number of bytes that `c` takes in UTF-8.
pub open spec fn utf8_width(c: char) -> nat {
    if (c as u32) < 0x80 {
        1
    } else if (c as u32) < 0x800 {
        2
    } else if (c as u32) < 0x10000 {
        3
    } else {
        4
    }
}

/// The number of bytes of `s` in UTF-8.
pub open spec fn utf8_len(s: Seq<char>) -> nat
    decreases s.len(),
{
    if s.len() == 0 {
        0
    } else {
        utf8_len(s.drop_last()) + utf8_width(s.last())
    }
}

proof fn lemma_utf8_len_bound(s: Seq<char>)
    ensures
        utf8_len(s) <= 4 * s.len(),
    decreases s.len(),
{
    if s.len() > 0 {
        lemma_utf8_len_bound(s.drop_last());
    }
}

/// The UTF-8 length of `s`, which is what `str::len` gives.
pub fn byte_len(s: &str) -> (r: u64)
    requires
        s@.len() < 0x1000_0000_0000,
    ensures
        r == utf8_len(s@),
{
    let n = s.unicode_len();
    let mut total: u64 = 0;
    let mut i: usize = 0;
    while i < n
        invariant
            n == s@.len(),
            n < 0x1000_0000_0000,
            i <= n,
            total == utf8_len(s@.subrange(0, i as int)),
        decreases n - i,
    {
        let c = s.get_char(i);
        proof {
            lemma_utf8_len_bound(s@.subrange(0, i as int));
        }
        let w: u64 = if (c as u32) < 0x80 {
            1
        } else if (c as u32) < 0x800 {
            2
        } else if (c as u32) < 0x10000 {
            3
        } else {
            4
        };
        assert(s@.subrange(0, i + 1).drop_last() =~= s@.subrange(0, i as int));
        total = total + w;
        i = i + 1;
    }
    assert(s@.subrange(0, n as int) =~= s@);
    total
}

/// Names the length of a longest common subsequence of two texts, as
/// `similar_string::lcs_length` computes it.
pub uninterp spec fn lcs_of(a: Seq<char>, b: Seq<char>) -> nat;

/// Relies on `similar_string::lcs_length`, which computes from the two texts
/// alone the length of a longest common subsequence (for texts whose bytes
/// and characters coincide). The similarity score of `similar_string` is this
/// length over the longer byte length.
#[verifier::external_body]
fn lcs(a: &str, b: &str) -> (r: usize)
    ensures
        r == lcs_of(a@, b@),
{
    similar_string::lcs_length(a, b)
}

/// The similarity of `option` to `target` as the fraction `(num, den)`: the
/// longest common subsequence over the longer UTF-8 length, and 1 when both
/// are empty.
pub open spec fn score(option: Seq<char>, target: Seq<char>) -> (nat, nat) {
    let size = if utf8_len(option) >= utf8_len(target) { utf8_len(option) } else { utf8_len(target) };
    if size == 0 {
        (1, 1)
    } else {
        (lcs_of(option, target), size)
    }
}

/// Whether fraction `a` is greater than fraction `b`.
pub open spec fn better(a: (nat, nat), b: (nat, nat)) -> bool {
    a.0 * b.1 > b.0 * a.1
}

/// Whether a similarity `(num, den)` reaches the duplicate threshold 0.6.
pub open spec fn likely_duplicate(s: (nat, nat)) -> bool {
    5 * s.0 >= 3 * s.1
}

/// Whether a similarity of `matched` over `size` reaches 0.6.
pub fn is_likely_duplicate(matched: u64, size: u64) -> (r: bool)
    ensures
        r == likely_duplicate((matched as nat, size as nat)),
{
    5 * (matched as u128) >= 3 * (size as u128)
}

/// An album that a fuzzy query matched: its name and format without their
/// parenthetical suffix, and one of its tracks.
pub struct AlbumMatch {
    pub name: String,
    pub format: String,
    pub track_id: String,
}

/// An album as `(name, format, track id)`.
pub type MatchView = (Seq<char>, Seq<char>, Seq<char>);

pub open spec fn match_view(m: AlbumMatch) -> MatchView {
    (m.name@, m.format@, m.track_id@)
}

pub open spec fn match_views(g: Seq<AlbumMatch>) -> Seq<MatchView> {
    g.map_values(|m: AlbumMatch| match_view(m))
}

/// The last index below `n` whose name is `name`, or -1.
pub open spec fn index_of_name(g: Seq<MatchView>, name: Seq<char>, n: int) -> int
    decreases n,
{
    if n <= 0 {
        -1
    } else if g[n - 1].0 == name {
        n - 1
    } else {
        index_of_name(g, name, n - 1)
    }
}

proof fn lemma_index_of_name_bounds(g: Seq<MatchView>, name: Seq<char>, n: int)
    requires
        0 <= n <= g.len(),
    ensures
        -1 <= index_of_name(g, name, n) < n,
        index_of_name(g, name, n) >= 0 ==> g[index_of_name(g, name, n)].0 == name,
    decreases n,
{
    if n > 0 && g[n - 1].0 != name {
        lemma_index_of_name_bounds(g, name, n - 1);
    }
}

/// Adds a match to the groups: it replaces the entry with the same name,
/// or comes last.
pub open spec fn group_upsert(g: Seq<MatchView>, e: MatchView) -> Seq<MatchView> {
    let k = index_of_name(g, e.0, g.len() as int);
    if k >= 0 {
        g.update(k, e)
    } else {
        g.push(e)
    }
}

/// The query results `(track id, album, extension)` grouped by album name
/// without its parenthetical suffix; a later result for a name replaces an
/// earlier one.
pub open spec fn grouped(raw: Seq<(Seq<char>, Seq<char>, Seq<char>)>) -> Seq<MatchView>
    decreases raw.len(),
{
    if raw.len() == 0 {
        Seq::empty()
    } else {
        let r = raw.last();
        group_upsert(grouped(raw.drop_last()), (before_parenthesis(r.1), before_parenthesis(r.2), r.0))
    }
}

pub open spec fn raw_views(raw: Seq<(String, String, String)>) -> Seq<(Seq<char>, Seq<char>, Seq<char>)> {
    raw.map_values(|r: (String, String, String)| (r.0@, r.1@, r.2@))
}

/// Groups fuzzy query results `(track id, album, extension)` by album name.
pub fn group_matches(raw: &Vec<(String, String, String)>) -> (r: Vec<AlbumMatch>)
    ensures
        match_views(r@) == grouped(raw_views(raw@)),
        (forall|j: int| 0 <= j < raw@.len() ==> (#[trigger] raw@[j]).1@.len() < 0x1000_0000_0000) ==> forall|
            j: int,
        |
            0 <= j < r@.len() ==> (#[trigger] r@[j]).name@.len() < 0x1000_0000_0000,
{
    let ghost short = forall|j: int| 0 <= j < raw@.len() ==> (#[trigger] raw@[j]).1@.len() < 0x1000_0000_0000;
    let mut g: Vec<AlbumMatch> = Vec::new();
    let mut i: usize = 0;
    while i < raw.len()
        invariant
            i <= raw@.len(),
            match_views(g@) == grouped(raw_views(raw@.subrange(0, i as int))),
            short == (forall|j: int| 0 <= j < raw@.len() ==> (#[trigger] raw@[j]).1@.len() < 0x1000_0000_0000),
            short ==> forall|j: int| 0 <= j < g@.len() ==> (#[trigger] g@[j]).name@.len() < 0x1000_0000_0000,
        decreases raw.len() - i,
    {
        let name = split_after_parenthesis(raw[i].1.as_str());
        proof {
            lemma_first_paren_bounds(raw@[i as int].1@, 0);
        }
        let format = split_after_parenthesis(raw[i].2.as_str());
        let track_id = raw[i].0.clone();
        let ghost gv = match_views(g@);
        let ghost e: MatchView = (name@, format@, track_id@);
        assert(raw_views(raw@.subrange(0, i + 1)).drop_last() =~= raw_views(raw@.subrange(0, i as int)));
        let mut k: usize = g.len();
        while k > 0 && g[k - 1].name != name
            invariant
                k <= g@.len(),
                gv == match_views(g@),
                index_of_name(gv, name@, g@.len() as int) == index_of_name(gv, name@, k as int),
            decreases k,
        {
            k = k - 1;
        }
        proof {
            lemma_index_of_name_bounds(gv, name@, k as int);
        }
        let m = AlbumMatch { name, format, track_id };
        if k > 0 {
            g.set(k - 1, m);
            assert(match_views(g@) =~= gv.update(k - 1, e));
        } else {
            g.push(m);
            assert(match_views(g@) =~= gv.push(e));
        }
        i = i + 1;
    }
    assert(raw@.subrange(0, raw@.len() as int) =~= raw@);
    g
}

pub open spec fn names(g: Seq<MatchView>) -> Seq<Seq<char>> {
    g.map_values(|e: MatchView| e.0)
}

/// Among the names below `n` other than `names[i]`, the first that is most
/// similar to `names[i]`; -1 when there is none.
pub open spec fn best_upto(names: Seq<Seq<char>>, i: int, n: int) -> int
    decreases n,
{
    if n <= 0 {
        -1
    } else {
        let b = best_upto(names, i, n - 1);
        if n - 1 == i {
            b
        } else if b < 0 {
            n - 1
        } else if better(score(names[n - 1], names[i]), score(names[b], names[i])) {
            n - 1
        } else {
            b
        }
    }
}

proof fn lemma_best_upto_bounds(names: Seq<Seq<char>>, i: int, n: int)
    requires
        0 <= i,
        0 <= n,
    ensures
        -1 <= best_upto(names, i, n) < n,
        best_upto(names, i, n) != i,
        n >= 2 && i < n ==> best_upto(names, i, n) >= 0,
        n >= 1 && i >= n ==> best_upto(names, i, n) >= 0,
    decreases n,
{
    if n > 0 {
        lemma_best_upto_bounds(names, i, n - 1);
    }
}

/// A likely duplicate: `album` and `dupe` are the trimmed names, with the
/// format and a track of each, and the similarity `matched / size`.
pub struct FuzzyDupe {
    pub album: String,
    pub dupe: String,
    pub format: String,
    pub track_id: String,
    pub dupe_format: String,
    pub dupe_track_id: String,
    pub matched: u64,
    pub size: u64,
}

pub type DupeView = (Seq<char>, Seq<char>, Seq<char>, Seq<char>, Seq<char>, Seq<char>, nat, nat);

pub open spec fn dupe_view(d: FuzzyDupe) -> DupeView {
    (d.album@, d.dupe@, d.format@, d.track_id@, d.dupe_format@, d.dupe_track_id@, d.matched as nat, d.size as nat)
}

pub open spec fn dupe_views(v: Seq<FuzzyDupe>) -> Seq<DupeView> {
    v.map_values(|d: FuzzyDupe| dupe_view(d))
}

pub open spec fn pair_views(v: Seq<(String, String)>) -> Seq<(Seq<char>, Seq<char>)> {
    v.map_values(|p: (String, String)| (p.0@, p.1@))
}

/// Whether the unordered pair `{a, b}` was seen.
pub open spec fn seen_pair(seen: Seq<(Seq<char>, Seq<char>)>, a: Seq<char>, b: Seq<char>) -> bool {
    seen.contains((a, b)) || seen.contains((b, a))
}

/// The seen pairs and the reports after the first `n` groups were each
/// compared with their best match.
pub open spec fn fuzzy_upto(g: Seq<MatchView>, n: int, seen0: Seq<(Seq<char>, Seq<char>)>) -> (
    Seq<(Seq<char>, Seq<char>)>,
    Seq<DupeView>,
)
    decreases n,
{
    if n <= 0 {
        (seen0, Seq::empty())
    } else {
        let (seen, reps) = fuzzy_upto(g, n - 1, seen0);
        let i = n - 1;
        let b = best_upto(names(g), i, g.len() as int);
        let a_name = trimmed(g[i].0);
        let b_name = trimmed(g[b].0);
        if seen_pair(seen, a_name, b_name) {
            (seen, reps)
        } else {
            let s = score(g[b].0, g[i].0);
            (
                seen.push((a_name, b_name)),
                if likely_duplicate(s) {
                    reps.push((a_name, b_name, g[i].1, g[i].2, g[b].1, g[b].2, s.0, s.1))
                } else {
                    reps
                },
            )
        }
    }
}

/// The likely duplicates among the groups of one query: nothing when the
/// query matched fewer than two names.
pub open spec fn fuzzy_report(g: Seq<MatchView>, seen0: Seq<(Seq<char>, Seq<char>)>) -> (
    Seq<(Seq<char>, Seq<char>)>,
    Seq<DupeView>,
) {
    if g.len() <= 1 {
        (seen0, Seq::empty())
    } else {
        fuzzy_upto(g, g.len() as int, seen0)
    }
}

/// Whether `(a, b)` or `(b, a)` is among `seen`.
fn contains_pair(seen: &Vec<(String, String)>, a: &String, b: &String) -> (r: bool)
    ensures
        r == seen_pair(pair_views(seen@), a@, b@),
{
    let mut i: usize = 0;
    while i < seen.len()
        invariant
            i <= seen@.len(),
            forall|j: int| 0 <= j < i ==> pair_views(seen@)[j] != (a@, b@) && pair_views(seen@)[j] != (b@, a@),
        decreases seen.len() - i,
    {
        if (seen[i].0 == *a && seen[i].1 == *b) || (seen[i].0 == *b && seen[i].1 == *a) {
            assert(pair_views(seen@)[i as int] == (a@, b@) || pair_views(seen@)[i as int] == (b@, a@));
            return true;
        }
        i = i + 1;
    }
    assert(!seen_pair(pair_views(seen@), a@, b@)) by {
        if pair_views(seen@).contains((a@, b@)) {
            let j = choose|j: int| 0 <= j < pair_views(seen@).len() && pair_views(seen@)[j] == (a@, b@);
            assert(j < i);
        }
        if pair_views(seen@).contains((b@, a@)) {
            let j = choose|j: int| 0 <= j < pair_views(seen@).len() && pair_views(seen@)[j] == (b@, a@);
            assert(j < i);
        }
    }
    false
}

/// The similarity of `option` to `target`.
fn similarity(option: &str, target: &str) -> (r: (u64, u64))
    requires
        option@.len() < 0x1000_0000_0000,
        target@.len() < 0x1000_0000_0000,
    ensures
        (r.0 as nat, r.1 as nat) == score(option@, target@),
{
    let lo = byte_len(option);
    let lt = byte_len(target);
    let size = if lo >= lt { lo } else { lt };
    if size == 0 {
        (1, 1)
    } else {
        let m = lcs(option, target);
        (m as u64, size)
    }
}

proof fn lemma_product_fits(a: u64, b: u64)
    ensures
        (a as int) * (b as int) <= 0xffff_ffff_ffff_ffff_ffff_ffff_ffff_ffff,
{
    assert((a as int) * (b as int) <= 0xffff_ffff_ffff_ffff * 0xffff_ffff_ffff_ffff) by (nonlinear_arith)
        requires
            a <= 0xffff_ffff_ffff_ffff,
            b <= 0xffff_ffff_ffff_ffff,
            0 <= a,
            0 <= b,
    ;
}

/// The index of the first name other than `names[i]` most similar to it.
fn best_match(g: &Vec<AlbumMatch>, i: usize) -> (r: usize)
    requires
        g@.len() >= 2,
        i < g@.len(),
        forall|j: int| 0 <= j < g@.len() ==> (#[trigger] g@[j]).name@.len() < 0x1000_0000_0000,
    ensures
        r as int == best_upto(names(match_views(g@)), i as int, g@.len() as int),
        r < g@.len(),
{
    let ghost ns = names(match_views(g@));
    let n = g.len();
    let mut best: usize = n;
    let mut best_score: (u64, u64) = (0, 1);
    let mut j: usize = 0;
    while j < n
        invariant
            n == g@.len(),
            ns == names(match_views(g@)),
            i < n,
            j <= n,
            forall|k: int| 0 <= k < g@.len() ==> (#[trigger] g@[k]).name@.len() < 0x1000_0000_0000,
            best <= n,
            best == n ==> best_upto(ns, i as int, j as int) == -1,
            best < n ==> best_upto(ns, i as int, j as int) == best as int && (best_score.0 as nat, best_score.1 as nat)
                == score(ns[best as int], ns[i as int]),
        decreases n - j,
    {
        assert(ns[j as int] == g@[j as int].name@);
        assert(ns[i as int] == g@[i as int].name@);
        if j != i {
            let s = similarity(g[j].name.as_str(), g[i].name.as_str());
            proof {
                lemma_product_fits(s.0, best_score.1);
                lemma_product_fits(best_score.0, s.1);
            }
            let lhs: u128 = (s.0 as u128) * (best_score.1 as u128);
            let rhs: u128 = (best_score.0 as u128) * (s.1 as u128);
            if best == n || lhs > rhs {
                best = j;
                best_score = s;
            }
        }
        j = j + 1;
    }
    proof {
        lemma_best_upto_bounds(ns, i as int, n as int);
    }
    best
}

/// Compares each album of one fuzzy query with its most similar other
/// album and reports the pairs scoring at least 0.6. `seen` holds the
/// unordered pairs already compared, across queries; each pair is compared
/// once.
pub fn fuzzy_duplicates(raw: &Vec<(String, String, String)>, seen: &mut Vec<(String, String)>) -> (r: Vec<
    FuzzyDupe,
>)
    requires
        forall|j: int| 0 <= j < raw@.len() ==> (#[trigger] raw@[j]).1@.len() < 0x1000_0000_0000,
    ensures
        (pair_views(final(seen)@), dupe_views(r@)) == fuzzy_report(grouped(raw_views(raw@)), pair_views(old(seen)@)),
{
    let g = group_matches(raw);
    let ghost gv = match_views(g@);
    let ghost seen0 = pair_views(seen@);
    let mut reports: Vec<FuzzyDupe> = Vec::new();
    if g.len() <= 1 {
        return reports;
    }
    let n = g.len();
    let mut i: usize = 0;
    while i < n
        invariant
            n == g@.len(),
            n >= 2,
            gv == match_views(g@),
            i <= n,
            forall|j: int| 0 <= j < g@.len() ==> (#[trigger] g@[j]).name@.len() < 0x1000_0000_0000,
            (pair_views(seen@), dupe_views(reports@)) == fuzzy_upto(gv, i as int, seen0),
        decreases n - i,
    {
        let b = best_match(&g, i);
        let a_name = trim(g[i].name.as_str());
        let b_name = trim(g[b].name.as_str());
        assert(gv[i as int].0 == g@[i as int].name@);
        assert(gv[b as int].0 == g@[b as int].name@);
        assert(names(gv)[i as int] == gv[i as int].0);
        if !contains_pair(seen, &a_name, &b_name) {
            let s = similarity(g[b].name.as_str(), g[i].name.as_str());
            let ghost before_seen = pair_views(seen@);
            let ghost before_reps = dupe_views(reports@);
            let likely = is_likely_duplicate(s.0, s.1);
            if likely {
                let d = FuzzyDupe {
                    album: a_name.clone(),
                    dupe: b_name.clone(),
                    format: g[i].format.clone(),
                    track_id: g[i].track_id.clone(),
                    dupe_format: g[b].format.clone(),
                    dupe_track_id: g[b].track_id.clone(),
                    matched: s.0,
                    size: s.1,
                };
                reports.push(d);
                assert(dupe_views(reports@) =~= before_reps.push(dupe_view(d)));
            }
            seen.push((a_name, b_name));
            assert(pair_views(seen@) =~= before_seen.push((trimmed(gv[i as int].0), trimmed(gv[b as int].0))));
        }
        i = i + 1;
    }
    reports
}

/// An album's grouping key: its artist and title.
pub type AlbumKey = (Seq<char>, Seq<char>);

pub open spec fn album_keys(v: Seq<Album>) -> Seq<AlbumKey> {
    v.map_values(|a: Album| (a.artist@, a.title@))
}

/// How many times `k` occurs in `keys`.
pub open spec fn count_key(keys: Seq<AlbumKey>, k: AlbumKey) -> nat
    decreases keys.len(),
{
    if keys.len() == 0 {
        0
    } else {
        count_key(keys.drop_last(), k) + if keys.last() == k { 1nat } else { 0nat }
    }
}

/// The keys among the first `n` that occur at least twice in `keys`, each
/// once at its first occurrence, with their number of occurrences.
pub open spec fn exact_groups(keys: Seq<AlbumKey>, n: int) -> Seq<(AlbumKey, nat)>
    decreases n,
{
    if n <= 0 {
        Seq::empty()
    } else {
        let r = exact_groups(keys, n - 1);
        let k = keys[n - 1];
        if !keys.subrange(0, n - 1).contains(k) && count_key(keys, k) >= 2 {
            r.push((k, count_key(keys, k)))
        } else {
            r
        }
    }
}

pub open spec fn group_views(v: Seq<(Album, u64)>) -> Seq<(AlbumKey, nat)> {
    v.map_values(|e: (Album, u64)| ((e.0.artist@, e.0.title@), e.1 as nat))
}

proof fn lemma_count_key_bound(keys: Seq<AlbumKey>, k: AlbumKey)
    ensures
        count_key(keys, k) <= keys.len(),
    decreases keys.len(),
{
    if keys.len() > 0 {
        lemma_count_key_bound(keys.drop_last(), k);
    }
}

fn same_key(a: &Album, b: &Album) -> (r: bool)
    ensures
        r == ((a.artist@, a.title@) == (b.artist@, b.title@)),
{
    a.artist == b.artist && a.title == b.title
}

/// Groups the albums by artist and title and returns each group of two or
/// more rows, once, with its size: albums stored in several formats.
pub fn duplicate_albums(albums: &Vec<Album>) -> (r: Vec<(Album, u64)>)
    ensures
        group_views(r@) == exact_groups(album_keys(albums@), albums@.len() as int),
        forall|i: int| 0 <= i < r@.len() ==> (#[trigger] r@[i]).0.format@ == Seq::<char>::empty(),
{
    let ghost keys = album_keys(albums@);
    let mut r: Vec<(Album, u64)> = Vec::new();
    let mut i: usize = 0;
    while i < albums.len()
        invariant
            i <= albums@.len(),
            keys == album_keys(albums@),
            group_views(r@) == exact_groups(keys, i as int),
            forall|t: int| 0 <= t < r@.len() ==> (#[trigger] r@[t]).0.format@ == Seq::<char>::empty(),
        decreases albums.len() - i,
    {
        let ghost k = keys[i as int];
        let mut earlier = false;
        let mut j: usize = 0;
        while j < i
            invariant
                i < albums@.len(),
                j <= i,
                keys == album_keys(albums@),
                k == keys[i as int],
                earlier == keys.subrange(0, j as int).contains(k),
            decreases i - j,
        {
            let same = same_key(&albums[j], &albums[i]);
            assert(keys.subrange(0, j + 1) =~= keys.subrange(0, j as int).push(keys[j as int]));
            if same {
                earlier = true;
            }
            j = j + 1;
        }
        if !earlier {
            let mut count: u64 = 0;
            let mut m: usize = 0;
            while m < albums.len()
                invariant
                    m <= albums@.len(),
                    keys == album_keys(albums@),
                    i < albums@.len(),
                    k == keys[i as int],
                    count == count_key(keys.subrange(0, m as int), k),
                decreases albums.len() - m,
            {
                proof {
                    lemma_count_key_bound(keys.subrange(0, m as int), k);
                }
                assert(keys.subrange(0, m + 1).drop_last() =~= keys.subrange(0, m as int));
                if same_key(&albums[m], &albums[i]) {
                    count = count + 1;
                }
                m = m + 1;
            }
            assert(keys.subrange(0, albums@.len() as int) =~= keys);
            if count >= 2 {
                let a = Album {
                    title: albums[i].title.clone(),
                    artist: albums[i].artist.clone(),
                    format: String::new(),
                };
                let ghost before = r@;
                r.push((a, count));
                assert(group_views(r@) =~= group_views(before).push((k, count as nat)));
            }
        }
        i = i + 1;
    }
    r
}

proof fn lemma_count_two(keys: Seq<AlbumKey>, i: int, j: int)
    requires
        0 <= i < j < keys.len(),
        keys[i] == keys[j],
    ensures
        count_key(keys, keys[i]) >= 2,
    decreases keys.len(),
{
    let init = keys.drop_last();
    if j < keys.len() - 1 {
        lemma_count_two(init, i, j);
    } else {
        lemma_count_one(init, i, keys[i]);
    }
}

proof fn lemma_count_one(keys: Seq<AlbumKey>, i: int, k: AlbumKey)
    requires
        0 <= i < keys.len(),
        keys[i] == k,
    ensures
        count_key(keys, k) >= 1,
    decreases keys.len(),
{
    if i < keys.len() - 1 {
        lemma_count_one(keys.drop_last(), i, k);
    }
}

proof fn lemma_groups_grow(keys: Seq<AlbumKey>, n: int, m: int)
    requires
        0 <= n <= m,
    ensures
        forall|e: (AlbumKey, nat)| exact_groups(keys, n).contains(e) ==> exact_groups(keys, m).contains(e),
    decreases m - n,
{
    if n < m {
        lemma_groups_grow(keys, n, m - 1);
    }
}

proof fn lemma_first_occurrence(keys: Seq<AlbumKey>, k: AlbumKey, n: int) -> (f: int)
    requires
        0 <= n <= keys.len(),
        keys.subrange(0, n).contains(k),
    ensures
        0 <= f < n,
        keys[f] == k,
        !keys.subrange(0, f).contains(k),
    decreases n,
{
    if keys.subrange(0, n - 1).contains(k) {
        let j = choose|j: int| 0 <= j < n - 1 && #[trigger] keys.subrange(0, n - 1)[j] == k;
        assert(keys.subrange(0, n)[j] == k);
        lemma_first_occurrence(keys, k, n - 1)
    } else {
        let j = choose|j: int| 0 <= j < n && #[trigger] keys.subrange(0, n)[j] == k;
        if j < n - 1 {
            assert(keys.subrange(0, n - 1)[j] == k);
        }
        assert(keys.subrange(0, n - 1) =~= keys.subrange(0, n - 1));
        n - 1
    }
}

/// Two albums rows with the same artist and title, whatever their formats,
/// are always reported as one group of at least two rows.
pub proof fn lemma_same_album_reported(albums: Seq<Album>, i: int, j: int)
    requires
        0 <= i < albums.len(),
        0 <= j < albums.len(),
        i != j,
        albums[i].artist@ == albums[j].artist@,
        albums[i].title@ == albums[j].title@,
    ensures
        exists|e: (AlbumKey, nat)|
            #[trigger] exact_groups(album_keys(albums), albums.len() as int).contains(e) && e.0 == (
                albums[i].artist@,
                albums[i].title@,
            ) && e.1 >= 2,
{
    let keys = album_keys(albums);
    let k = keys[i];
    assert(keys[j] == k);
    if i < j {
        lemma_count_two(keys, i, j);
    } else {
        lemma_count_two(keys, j, i);
    }
    assert(keys.subrange(0, keys.len() as int)[i] == k);
    let f = lemma_first_occurrence(keys, k, keys.len() as int);
    let e = (k, count_key(keys, k));
    assert(exact_groups(keys, f + 1).last() == e);
    assert(exact_groups(keys, f + 1).contains(e));
    lemma_groups_grow(keys, f + 1, keys.len() as int);
    assert(exact_groups(keys, keys.len() as int).contains(e));
}

} // verus!
