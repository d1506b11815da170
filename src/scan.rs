//! Which files a directory scan adds to a catalog, and which rows a rescan
//! drops because their file is gone.

use vstd::prelude::*;
use crate::model::Track;
use crate::reconcile::id_views;

verus! {

broadcast use vstd::seq_lib::group_seq_properties;

/// The found paths that the catalog does not know yet, in order;
/// `known[i]` tells whether the catalog already holds `found[i]`.
pub open spec fn new_paths(found: Seq<Seq<char>>, known: Seq<bool>) -> Seq<Seq<char>>
    decreases found.len(),
{
    if found.len() == 0 {
        Seq::empty()
    } else if known[found.len() - 1] {
        new_paths(found.drop_last(), known)
    } else {
        new_paths(found.drop_last(), known).push(found.last())
    }
}

/// Whether each found path is among the catalog's paths `catalog`.
pub open spec fn known_in(found: Seq<Seq<char>>, catalog: Set<Seq<char>>) -> Seq<bool> {
    found.map_values(|p: Seq<char>| catalog.contains(p))
}

/// The outcome of one scan.
pub struct ScanPlan {
    /// Paths to read and add, in the order found.
    pub import: Vec<String>,
    /// How many found paths the catalog already holds.
    pub duplicates: u64,
}

/// The number of true flags.
pub open spec fn count_true(flags: Seq<bool>) -> nat
    decreases flags.len(),
{
    if flags.len() == 0 {
        0
    } else {
        count_true(flags.drop_last()) + if flags.last() { 1nat } else { 0nat }
    }
}

proof fn lemma_count_true_bound(flags: Seq<bool>)
    ensures
        count_true(flags) <= flags.len(),
    decreases flags.len(),
{
    if flags.len() > 0 {
        lemma_count_true_bound(flags.drop_last());
    }
}

/// Splits the paths a traversal found into those to import and those the
/// catalog already holds.
pub fn scan_plan(found: &Vec<String>, known: &Vec<bool>) -> (r: ScanPlan)
    requires
        known@.len() == found@.len(),
    ensures
        id_views(r.import@) == new_paths(id_views(found@), known@),
        r.duplicates == count_true(known@),
{
    let mut import: Vec<String> = Vec::new();
    let mut duplicates: u64 = 0;
    let mut i: usize = 0;
    while i < found.len()
        invariant
            i <= found@.len(),
            known@.len() == found@.len(),
            id_views(import@) == new_paths(id_views(found@.subrange(0, i as int)), known@),
            duplicates == count_true(known@.subrange(0, i as int)),
        decreases found.len() - i,
    {
        let ghost before = import@;
        assert(id_views(found@.subrange(0, i + 1)).drop_last() =~= id_views(found@.subrange(0, i as int)));
        assert(known@.subrange(0, i + 1).drop_last() =~= known@.subrange(0, i as int));
        proof {
            lemma_count_true_bound(known@.subrange(0, i as int));
        }
        if known[i] {
            duplicates = duplicates + 1;
        } else {
            import.push(found[i].clone());
            assert(id_views(import@) =~= id_views(before).push(found@[i as int]@));
        }
        i = i + 1;
    }
    assert(found@.subrange(0, found@.len() as int) =~= found@);
    assert(known@.subrange(0, known@.len() as int) =~= known@);
    ScanPlan { import, duplicates }
}

proof fn lemma_new_paths_in(found: Seq<Seq<char>>, known: Seq<bool>)
    requires
        known.len() >= found.len(),
    ensures
        forall|i: int| 0 <= i < found.len() && !known[i] ==> new_paths(found, known).contains(#[trigger] found[i]),
    decreases found.len(),
{
    if found.len() > 0 {
        let init = found.drop_last();
        lemma_new_paths_in(init, known);
        assert forall|i: int| 0 <= i < found.len() && !known[i] implies new_paths(found, known).contains(
            #[trigger] found[i],
        ) by {
            if i < found.len() - 1 {
                assert(init[i] == found[i]);
                assert(new_paths(init, known).contains(init[i]));
            } else {
                let r = new_paths(found, known);
                assert(r[r.len() - 1] == found[i]);
            }
        }
    }
}

proof fn lemma_new_paths_empty(found: Seq<Seq<char>>, known: Seq<bool>)
    requires
        known.len() >= found.len(),
        forall|i: int| 0 <= i < found.len() ==> known[i],
    ensures
        new_paths(found, known) == Seq::<Seq<char>>::empty(),
    decreases found.len(),
{
    if found.len() > 0 {
        lemma_new_paths_empty(found.drop_last(), known);
    }
}

/// Scanning an unchanged directory twice imports nothing the second time:
/// once the paths of the first scan are in the catalog, every found path
/// is known.
pub proof fn lemma_rescan_imports_nothing(found: Seq<Seq<char>>, catalog: Set<Seq<char>>)
    ensures
        new_paths(
            found,
            known_in(found, catalog.union(new_paths(found, known_in(found, catalog)).to_set())),
        ) == Seq::<Seq<char>>::empty(),
{
    let first = new_paths(found, known_in(found, catalog));
    let after = catalog.union(first.to_set());
    lemma_new_paths_in(found, known_in(found, catalog));
    assert forall|i: int| 0 <= i < found.len() implies #[trigger] known_in(found, after)[i] by {
        if !catalog.contains(found[i]) {
            assert(first.contains(found[i]));
        }
    }
    lemma_new_paths_empty(found, known_in(found, after));
}

/// The store-local ids of the rows whose file is gone; `present[i]` tells
/// whether the file of `tracks[i]` is still on disk.
pub open spec fn vanished(tracks: Seq<Track>, present: Seq<bool>) -> Seq<i64>
    decreases tracks.len(),
{
    if tracks.len() == 0 {
        Seq::empty()
    } else if present[tracks.len() - 1] {
        vanished(tracks.drop_last(), present)
    } else {
        vanished(tracks.drop_last(), present).push(tracks.last().id)
    }
}

/// The rows that a rescan deletes because their file no longer exists.
pub fn vanished_rows(tracks: &Vec<Track>, present: &Vec<bool>) -> (r: Vec<i64>)
    requires
        present@.len() == tracks@.len(),
    ensures
        r@ == vanished(tracks@, present@),
{
    let mut r: Vec<i64> = Vec::new();
    let mut i: usize = 0;
    while i < tracks.len()
        invariant
            i <= tracks@.len(),
            present@.len() == tracks@.len(),
            r@ == vanished(tracks@.subrange(0, i as int), present@),
        decreases tracks.len() - i,
    {
        assert(tracks@.subrange(0, i + 1).drop_last() =~= tracks@.subrange(0, i as int));
        if !present[i] {
            r.push(tracks[i].id);
        }
        i = i + 1;
    }
    assert(tracks@.subrange(0, tracks@.len() as int) =~= tracks@);
    r
}

/// Whether `s` ends with `suffix`.
pub open spec fn ends_with(s: Seq<char>, suffix: Seq<char>) -> bool {
    s.len() >= suffix.len() && s.subrange(s.len() - suffix.len(), s.len() as int) == suffix
}

fn has_suffix(s: &str, suffix: &Vec<char>) -> (r: bool)
    ensures
        r == ends_with(s@, suffix@),
{
    let n = s.unicode_len();
    let m = suffix.len();
    if n < m {
        return false;
    }
    let mut k: usize = 0;
    while k < m
        invariant
            n == s@.len(),
            m == suffix@.len(),
            m <= n,
            k <= m,
            forall|t: int| 0 <= t < k ==> s@[n - m + t] == suffix@[t],
        decreases m - k,
    {
        if s.get_char(n - m + k) != suffix[k] {
            assert(s@.subrange(n - m, n as int)[k as int] != suffix@[k as int]);
            return false;
        }
        k = k + 1;
    }
    assert(s@.subrange(n - m, n as int) =~= suffix@);
    true
}

/// The extensions of the files a scan picks up.
pub open spec fn music_suffixes() -> Seq<Seq<char>> {
    seq![
        seq!['.', 'f', 'l', 'a', 'c'],
        seq!['.', 'm', 'p', '3'],
        seq!['.', 'o', 'g', 'g'],
        seq!['.', 'm', 'p', '4'],
        seq!['.', 'm', '4', 'a'],
    ]
}

/// Whether `name` has one of the supported music file extensions: flac,
/// mp3, ogg, mp4 or m4a.
pub fn is_music(name: &String) -> (r: bool)
    ensures
        r == exists|i: int| 0 <= i < 5 && ends_with(name@, #[trigger] music_suffixes()[i]),
{
    let formats: Vec<Vec<char>> = vec![
        vec!['.', 'f', 'l', 'a', 'c'],
        vec!['.', 'm', 'p', '3'],
        vec!['.', 'o', 'g', 'g'],
        vec!['.', 'm', 'p', '4'],
        vec!['.', 'm', '4', 'a'],
    ];
    assert(formats@.map_values(|f: Vec<char>| f@) =~= music_suffixes());
    let mut i: usize = 0;
    while i < formats.len()
        invariant
            i <= formats@.len(),
            formats@.len() == 5,
            formats@.map_values(|f: Vec<char>| f@) == music_suffixes(),
            forall|j: int| 0 <= j < i ==> !ends_with(name@, #[trigger] music_suffixes()[j]),
        decreases formats.len() - i,
    {
        assert(formats@[i as int]@ == music_suffixes()[i as int]);
        if has_suffix(name.as_str(), &formats[i]) {
            return true;
        }
        i = i + 1;
    }
    false
}

} // verus!
