//! The diff between a source and a destination catalog: which identities to
//! copy over and which to retract, under an optional filter policy.

use vstd::prelude::*;
use crate::model::{FileState, Track};
use crate::pipeline::{CatalogModel, apply_copies, apply_retractions, ids_in_state, lemma_apply_copies, lemma_apply_retractions};

verus! {

broadcast use vstd::seq_lib::group_seq_properties;

/// The texts of a list of identities.
pub open spec fn id_views(ids: Seq<String>) -> Seq<Seq<char>> {
    ids.map_values(|s: String| s@)
}

/// The identities of a list of tracks, in order.
pub open spec fn track_ids(tracks: Seq<Track>) -> Seq<Seq<char>> {
    tracks.map_values(|t: Track| t.track_id@)
}

/// The set of identities of a list of tracks.
pub open spec fn id_set(tracks: Seq<Track>) -> Set<Seq<char>> {
    track_ids(tracks).to_set()
}

/// The tracks whose exclusion flag is false, in their order.
pub open spec fn kept(tracks: Seq<Track>, exclude: Seq<bool>) -> Seq<Track>
    decreases tracks.len(),
{
    if tracks.len() == 0 {
        Seq::empty()
    } else {
        let rest = kept(tracks.drop_last(), exclude);
        if exclude[tracks.len() - 1] {
            rest
        } else {
            rest.push(tracks.last())
        }
    }
}

/// The tracks that a filter pass lets through: all of them when no filter
/// is configured or when the pass resolves deletions, else those that the
/// predicate did not exclude.
pub open spec fn selected(tracks: Seq<Track>, exclude: Option<Seq<bool>>, delete: bool) -> Seq<Track> {
    match exclude {
        Some(e) => if delete { tracks } else { kept(tracks, e) },
        None => tracks,
    }
}

/// The filter verdicts as a sequence, when a filter is configured.
pub open spec fn verdicts(exclude: Option<&Vec<bool>>) -> Option<Seq<bool>> {
    match exclude {
        Some(e) => Some(e@),
        None => None,
    }
}

/// No identity occurs twice among the tracks: the catalog invariant.
pub open spec fn unique_ids(tracks: Seq<Track>) -> bool {
    track_ids(tracks).no_duplicates()
}

proof fn lemma_kept_ids(tracks: Seq<Track>, exclude: Seq<bool>)
    requires
        exclude.len() >= tracks.len(),
    ensures
        id_set(kept(tracks, exclude)).subset_of(id_set(tracks)),
    decreases tracks.len(),
{
    if tracks.len() > 0 {
        let init = tracks.drop_last();
        let x = tracks.last().track_id@;
        lemma_kept_ids(init, exclude);
        assert(track_ids(tracks) =~= track_ids(init).push(x));
        track_ids(init).lemma_push_to_set_commute(x);
        if !exclude[tracks.len() - 1] {
            assert(track_ids(kept(tracks, exclude)) =~= track_ids(kept(init, exclude)).push(x));
            track_ids(kept(init, exclude)).lemma_push_to_set_commute(x);
        }
    }
}

/// Whether `x` is among `ids`.
pub fn contains_id(ids: &Vec<String>, x: &String) -> (r: bool)
    ensures
        r == id_views(ids@).contains(x@),
{
    let mut i: usize = 0;
    while i < ids.len()
        invariant
            i <= ids@.len(),
            forall|j: int| 0 <= j < i ==> ids@[j]@ != x@,
        decreases ids.len() - i,
    {
        if ids[i] == *x {
            assert(id_views(ids@)[i as int] == x@);
            return true;
        }
        i = i + 1;
    }
    assert(!id_views(ids@).contains(x@)) by {
        if id_views(ids@).contains(x@) {
            let j = choose|j: int| 0 <= j < id_views(ids@).len() && id_views(ids@)[j] == x@;
            assert(ids@[j]@ == x@);
        }
    }
    false
}

/// The identities in `source` that are not in `destination`, each once.
pub fn diff(source: &Vec<String>, destination: &Vec<String>) -> (r: Vec<String>)
    ensures
        id_views(r@).to_set() == id_views(source@).to_set().difference(id_views(destination@).to_set()),
        id_views(r@).no_duplicates(),
{
    let mut r: Vec<String> = Vec::new();
    let mut i: usize = 0;
    while i < source.len()
        invariant
            i <= source@.len(),
            id_views(r@).to_set() == id_views(source@.subrange(0, i as int)).to_set().difference(
                id_views(destination@).to_set(),
            ),
            id_views(r@).no_duplicates(),
        decreases source.len() - i,
    {
        let x = &source[i];
        let in_dest = contains_id(destination, x);
        let seen = contains_id(&r, x);
        let ghost before = r@;
        assert(id_views(source@.subrange(0, i + 1)) =~= id_views(source@.subrange(0, i as int)).push(x@));
        proof {
            id_views(source@.subrange(0, i as int)).lemma_push_to_set_commute(x@);
        }
        if !in_dest && !seen {
            r.push(x.clone());
            assert(id_views(r@) =~= id_views(before).push(x@));
            proof {
                id_views(before).lemma_push_to_set_commute(x@);
            }
        }
        assert(id_views(r@).to_set() =~= id_views(source@.subrange(0, i + 1)).to_set().difference(
            id_views(destination@).to_set(),
        ));
        i = i + 1;
    }
    assert(source@.subrange(0, source@.len() as int) =~= source@);
    r
}

/// The identities of `tracks`, in order.
pub fn ids_of(tracks: &Vec<Track>) -> (r: Vec<String>)
    ensures
        id_views(r@) == track_ids(tracks@),
{
    let mut r: Vec<String> = Vec::new();
    let mut i: usize = 0;
    while i < tracks.len()
        invariant
            i <= tracks@.len(),
            id_views(r@) =~= track_ids(tracks@.subrange(0, i as int)),
        decreases tracks.len() - i,
    {
        r.push(tracks[i].track_id.clone());
        assert(track_ids(tracks@.subrange(0, i + 1)) =~= track_ids(tracks@.subrange(0, i as int)).push(
            tracks@[i as int].track_id@,
        ));
        i = i + 1;
    }
    assert(tracks@.subrange(0, tracks@.len() as int) =~= tracks@);
    r
}

/// Applies the filter decisions to `raw_tracks`: `exclude[i]` is the
/// predicate's verdict on `raw_tracks[i]`. Excluded tracks are dropped,
/// unless `delete` is set: a deletion batch keeps every track it targets.
pub fn filter_tracks(raw_tracks: Vec<Track>, exclude: Option<&Vec<bool>>, delete: bool) -> (r: Vec<Track>)
    requires
        exclude matches Some(e) ==> e@.len() == raw_tracks@.len(),
    ensures
        r@ == selected(raw_tracks@, verdicts(exclude), delete),
{
    match exclude {
        None => raw_tracks,
        Some(e) => {
            if delete {
                return raw_tracks;
            }
            let mut r: Vec<Track> = Vec::new();
            let mut i: usize = 0;
            while i < raw_tracks.len()
                invariant
                    i <= raw_tracks@.len(),
                    e@.len() == raw_tracks@.len(),
                    r@ == kept(raw_tracks@.subrange(0, i as int), e@),
                decreases raw_tracks.len() - i,
            {
                let ghost prefix = raw_tracks@.subrange(0, i + 1);
                assert(prefix.drop_last() =~= raw_tracks@.subrange(0, i as int));
                if !e[i] {
                    r.push(raw_tracks[i].copy());
                }
                i = i + 1;
            }
            assert(raw_tracks@.subrange(0, raw_tracks@.len() as int) =~= raw_tracks@);
            r
        },
    }
}

/// The identities of the tracks that the filter keeps.
pub fn filter_tracks_by_id(exclude: Option<&Vec<bool>>, tracks: Vec<Track>) -> (r: Vec<String>)
    requires
        exclude matches Some(e) ==> e@.len() == tracks@.len(),
    ensures
        id_views(r@) == track_ids(selected(tracks@, verdicts(exclude), false)),
{
    let kept_tracks = filter_tracks(tracks, exclude, false);
    ids_of(&kept_tracks)
}

/// The identities of `destination` missing from the selected `source`
/// tracks: with `delete` unset, those a filter excludes count as missing.
pub fn diff_databases(
    source: Vec<Track>,
    destination: &Vec<Track>,
    exclude: Option<&Vec<bool>>,
    delete: bool,
) -> (r: Vec<String>)
    requires
        exclude matches Some(e) ==> e@.len() == source@.len(),
    ensures
        id_views(r@).to_set() == id_set(destination@).difference(
            id_set(selected(source@, verdicts(exclude), delete)),
        ),
        id_views(r@).no_duplicates(),
{
    let local = filter_tracks(source, exclude, delete);
    let src_ids = ids_of(&local);
    let dst_ids = ids_of(destination);
    diff(&dst_ids, &src_ids)
}

/// The set of identities to copy: wanted at the source and not yet mirrored.
pub open spec fn copy_set(source: Seq<Track>, exclude: Option<Seq<bool>>, destination: Seq<Track>) -> Set<
    Seq<char>,
> {
    id_set(selected(source, exclude, false)).difference(id_set(destination))
}

/// The set of identities to retract: mirrored rows whose source track is
/// gone, together with those the current filter excludes.
pub open spec fn delete_set(source: Seq<Track>, exclude: Option<Seq<bool>>, destination: Seq<Track>) -> Set<
    Seq<char>,
> {
    id_set(destination).difference(id_set(source)).union(
        id_set(destination).difference(id_set(selected(source, exclude, false))),
    )
}

proof fn lemma_selected_within(source: Seq<Track>, exclude: Option<Seq<bool>>)
    requires
        exclude matches Some(e) ==> e.len() == source.len(),
    ensures
        id_set(selected(source, exclude, false)).subset_of(id_set(source)),
{
    if let Some(e) = exclude {
        lemma_kept_ids(source, e);
    }
}

/// Computes the copy set and the delete set between the `Copied` tracks of
/// a source catalog and those of a destination catalog. `exclude` carries
/// the filter predicate's verdict on each source track, when a filter is
/// configured.
pub fn reconcile(source: &Vec<Track>, exclude: Option<&Vec<bool>>, destination: &Vec<Track>) -> (r: (
    Vec<String>,
    Vec<String>,
))
    requires
        exclude matches Some(e) ==> e@.len() == source@.len(),
    ensures
        id_views(r.0@).to_set() == copy_set(source@, verdicts(exclude), destination@),
        id_views(r.1@).to_set() == delete_set(source@, verdicts(exclude), destination@),
        id_views(r.0@).no_duplicates(),
        id_views(r.1@).no_duplicates(),
{
    let ghost ex = verdicts(exclude);
    let mut src: Vec<Track> = Vec::new();
    let mut i: usize = 0;
    while i < source.len()
        invariant
            i <= source@.len(),
            src@ == source@.subrange(0, i as int),
        decreases source.len() - i,
    {
        src.push(source[i].copy());
        i = i + 1;
    }
    assert(src@ =~= source@);
    let wanted = filter_tracks(src, exclude, false);
    let wanted_ids = ids_of(&wanted);
    let dest_ids = ids_of(destination);
    let copy = diff(&wanted_ids, &dest_ids);
    let delete = diff(&dest_ids, &wanted_ids);
    proof {
        lemma_selected_within(source@, ex);
        assert(delete_set(source@, ex, destination@) =~= id_set(destination@).difference(
            id_set(selected(source@, ex, false)),
        ));
    }
    (copy, delete)
}

proof fn lemma_kept_drops_excluded(tracks: Seq<Track>, exclude: Seq<bool>, i: int)
    requires
        exclude.len() >= tracks.len(),
        unique_ids(tracks),
        0 <= i < tracks.len(),
        exclude[i],
    ensures
        !id_set(kept(tracks, exclude)).contains(tracks[i].track_id@),
    decreases tracks.len(),
{
    let init = tracks.drop_last();
    let x = tracks.last().track_id@;
    let y = tracks[i].track_id@;
    assert(track_ids(tracks) =~= track_ids(init).push(x));
    assert(unique_ids(init)) by {
        assert(track_ids(init) =~= track_ids(tracks).subrange(0, init.len() as int));
    }
    if i < tracks.len() - 1 {
        assert(init[i] == tracks[i]);
        lemma_kept_drops_excluded(init, exclude, i);
        assert(track_ids(tracks)[i] != track_ids(tracks)[tracks.len() - 1]);
        if !exclude[tracks.len() - 1] {
            assert(track_ids(kept(tracks, exclude)) =~= track_ids(kept(init, exclude)).push(x));
            track_ids(kept(init, exclude)).lemma_push_to_set_commute(x);
        }
    } else {
        lemma_kept_ids(init, exclude);
        assert(!id_set(init).contains(y)) by {
            if id_set(init).contains(y) {
                let j = choose|j: int| 0 <= j < track_ids(init).len() && track_ids(init)[j] == y;
                assert(track_ids(tracks)[j] == track_ids(tracks)[tracks.len() - 1]);
            }
        }
    }
}

/// A track that the filter excludes is never in the copy set, and when the
/// destination mirrors it, it is in the delete set.
pub proof fn lemma_excluded_never_copied(
    source: Seq<Track>,
    exclude: Seq<bool>,
    destination: Seq<Track>,
    i: int,
)
    requires
        exclude.len() == source.len(),
        unique_ids(source),
        0 <= i < source.len(),
        exclude[i],
    ensures
        !copy_set(source, Some(exclude), destination).contains(source[i].track_id@),
        id_set(destination).contains(source[i].track_id@) ==> delete_set(
            source,
            Some(exclude),
            destination,
        ).contains(source[i].track_id@),
{
    lemma_kept_drops_excluded(source, exclude, i);
}

/// The destination once each retraction of `delete` and then each transfer
/// of `copy` completed.
pub open spec fn after_sync(m: CatalogModel, copy: Seq<Seq<char>>, delete: Seq<Seq<char>>) -> CatalogModel {
    apply_copies(apply_retractions(m, delete), copy)
}

proof fn lemma_after_sync(m: CatalogModel, copy: Seq<Seq<char>>, delete: Seq<Seq<char>>)
    ensures
        ids_in_state(after_sync(m, copy, delete), FileState::Copied) == ids_in_state(m, FileState::Copied).difference(
            delete.to_set(),
        ).union(copy.to_set()),
{
    lemma_apply_retractions(m, delete);
    lemma_apply_copies(apply_retractions(m, delete), copy);
    assert(ids_in_state(after_sync(m, copy, delete), FileState::Copied) =~= ids_in_state(
        m,
        FileState::Copied,
    ).difference(delete.to_set()).union(copy.to_set()));
}

/// Without a filter, once the retractions and transfers that `reconcile`
/// lists have completed, the destination's `Copied` identities are exactly
/// the source's. `destination` lists the destination's `Copied` rows; `copy`
/// and `delete` are the two lists, as sets equal to the copy and delete
/// sets.
pub proof fn lemma_sync_mirrors_source(
    source: Seq<Track>,
    dest: CatalogModel,
    destination: Seq<Track>,
    copy: Seq<Seq<char>>,
    delete: Seq<Seq<char>>,
)
    requires
        id_set(destination) == ids_in_state(dest, FileState::Copied),
        copy.to_set() == copy_set(source, None, destination),
        delete.to_set() == delete_set(source, None, destination),
    ensures
        ids_in_state(after_sync(dest, copy, delete), FileState::Copied) == id_set(source),
{
    lemma_after_sync(dest, copy, delete);
    assert(ids_in_state(after_sync(dest, copy, delete), FileState::Copied) =~= id_set(source));
}

/// With or without a filter, a completed sync leaves exactly the
/// identities that the filter keeps in state `Copied` at the destination.
pub proof fn lemma_sync_mirrors_selection(
    source: Seq<Track>,
    exclude: Option<Seq<bool>>,
    dest: CatalogModel,
    destination: Seq<Track>,
    copy: Seq<Seq<char>>,
    delete: Seq<Seq<char>>,
)
    requires
        exclude matches Some(e) ==> e.len() == source.len(),
        id_set(destination) == ids_in_state(dest, FileState::Copied),
        copy.to_set() == copy_set(source, exclude, destination),
        delete.to_set() == delete_set(source, exclude, destination),
    ensures
        ids_in_state(after_sync(dest, copy, delete), FileState::Copied) == id_set(selected(source, exclude, false)),
{
    lemma_selected_within(source, exclude);
    lemma_after_sync(dest, copy, delete);
    assert(ids_in_state(after_sync(dest, copy, delete), FileState::Copied) =~= id_set(
        selected(source, exclude, false),
    ));
}

/// Reconciliation is idempotent: once the destination mirrors the filtered
/// source, both the copy set and the delete set are empty.
pub proof fn lemma_reconcile_idempotent(
    source: Seq<Track>,
    exclude: Option<Seq<bool>>,
    destination: Seq<Track>,
)
    requires
        exclude matches Some(e) ==> e.len() == source.len(),
        id_set(destination) == id_set(selected(source, exclude, false)),
    ensures
        copy_set(source, exclude, destination) == Set::<Seq<char>>::empty(),
        delete_set(source, exclude, destination) == Set::<Seq<char>>::empty(),
{
    lemma_selected_within(source, exclude);
    assert(copy_set(source, exclude, destination) =~= Set::<Seq<char>>::empty());
    assert(delete_set(source, exclude, destination) =~= Set::<Seq<char>>::empty());
}

} // verus!
