//! The per-track transfer and retraction transitions, written as a state
//! machine whose actions the caller performs, and the crash-recovery scan.
//!
//! A copy writes the destination row in state `Copying` before any content
//! moves, and writes it again in state `Copied` only once the content is in
//! place; a crash in between leaves a `Copying` row that recovery removes.

use vstd::prelude::*;
use crate::model::{FileState, Track, last_slash_end};
use crate::reconcile::{id_set, track_ids, unique_ids};
use crate::text::slice_chars;
use crate::cmd::error::Error;

verus! {

/// A catalog seen as a map from track identity to the state of its row.
pub type CatalogModel = Map<Seq<char>, FileState>;

/// The catalog that a sequence of upserts builds: each row replaces the one
/// with the same identity.
pub open spec fn catalog_of(rows: Seq<Track>) -> CatalogModel
    decreases rows.len(),
{
    if rows.len() == 0 {
        Map::empty()
    } else {
        catalog_of(rows.drop_last()).insert(rows.last().track_id@, rows.last().file_state)
    }
}

/// The identities whose row is in state `s`.
pub open spec fn ids_in_state(m: CatalogModel, s: FileState) -> Set<Seq<char>> {
    m.dom().filter(|k: Seq<char>| m[k] == s)
}

/// The steps of one track's transfer.
#[derive(Debug, Clone, Copy, PartialEq, Eq, Structural)]
pub enum CopyStep {
    /// Upsert the destination row in state `Copying`: the checkpoint.
    MarkCopying,
    /// Create the destination directory tree.
    CreateParent,
    /// Link or copy the content.
    Transfer,
    /// Upsert the destination row in state `Copied`: the commit.
    MarkCopied,
    Done,
    Failed,
}

/// The step after `step`, given whether its action succeeded. Any failure
/// ends the transition and leaves what was written so far.
pub open spec fn next_copy_step(step: CopyStep, ok: bool) -> CopyStep {
    if !ok {
        match step {
            CopyStep::Done => CopyStep::Done,
            _ => CopyStep::Failed,
        }
    } else {
        match step {
            CopyStep::MarkCopying => CopyStep::CreateParent,
            CopyStep::CreateParent => CopyStep::Transfer,
            CopyStep::Transfer => CopyStep::MarkCopied,
            CopyStep::MarkCopied => CopyStep::Done,
            CopyStep::Done => CopyStep::Done,
            CopyStep::Failed => CopyStep::Failed,
        }
    }
}

/// What the action of `step` does to the destination catalog when it
/// succeeds.
pub open spec fn copy_effect(m: CatalogModel, id: Seq<char>, step: CopyStep, ok: bool) -> CatalogModel {
    if ok && step == CopyStep::MarkCopying {
        m.insert(id, FileState::Copying)
    } else if ok && step == CopyStep::MarkCopied {
        m.insert(id, FileState::Copied)
    } else {
        m
    }
}

/// The destination catalog and the step reached after the actions of a
/// transfer of `id` had the outcomes `outcomes`, in order.
pub open spec fn run_copy(m: CatalogModel, id: Seq<char>, step: CopyStep, outcomes: Seq<bool>) -> (
    CatalogModel,
    CopyStep,
)
    decreases outcomes.len(),
{
    if outcomes.len() == 0 {
        (m, step)
    } else {
        run_copy(
            copy_effect(m, id, step, outcomes[0]),
            id,
            next_copy_step(step, outcomes[0]),
            outcomes.drop_first(),
        )
    }
}

/// What the caller performs for the current step of a transfer.
#[derive(Debug, Clone)]
pub enum CopyAction {
    /// Upsert this row into the destination catalog.
    WriteRow(Track),
    /// Create this directory and its parents.
    CreateDir(String),
    /// Duplicate the content of `from` at `to`, by a hard link if `link`.
    Transfer { from: String, to: String, link: bool },
    /// Nothing is left to do.
    Finished,
    /// The transition was abandoned.
    Abandoned,
}

/// The state of one track's transfer to the destination.
pub struct CopyJob {
    pub step: CopyStep,
    /// The source track.
    pub track: Track,
    /// Where the content goes.
    pub target: String,
    /// The directory that holds `target`.
    pub parent: String,
    pub link: bool,
}

/// The directory part of a path: what comes before its last `/`, or the
/// root itself when that is the only one.
pub open spec fn parent_of(p: Seq<char>) -> Seq<char> {
    let k = last_slash_end(p, p.len() as int);
    if k <= 1 {
        p.subrange(0, k)
    } else {
        p.subrange(0, k - 1)
    }
}

/// The directory part of `p`.
pub fn parent(p: &str) -> (r: String)
    ensures
        r@ == parent_of(p@),
{
    let n = p.unicode_len();
    let mut k: usize = n;
    while k > 0 && p.get_char(k - 1) != '/'
        invariant
            n == p@.len(),
            k <= n,
            last_slash_end(p@, n as int) == last_slash_end(p@, k as int),
        decreases k,
    {
        k = k - 1;
    }
    if k <= 1 {
        slice_chars(p, 0, k)
    } else {
        slice_chars(p, 0, k - 1)
    }
}

/// The row that the destination holds for `track` in state `state`.
pub open spec fn row_in_state(track: Track, state: FileState) -> Track {
    Track { file_state: state, ..track }
}

impl CopyJob {
    /// A transfer of `track` into the destination below `base`.
    pub fn start(track: &Track, base: &str, link: bool) -> (r: CopyJob)
        ensures
            r.step == CopyStep::MarkCopying,
            r.track == *track,
            r.target@ == track.spec_storage_path(base@),
            r.parent@ == parent_of(r.target@),
            r.link == link,
    {
        let target = track.storage_path(base);
        let parent = parent(target.as_str());
        CopyJob { step: CopyStep::MarkCopying, track: track.copy(), target, parent, link }
    }

    /// The action of the current step.
    pub fn action(&self) -> (r: CopyAction)
        ensures
            self.step == CopyStep::MarkCopying ==> r == CopyAction::WriteRow(
                row_in_state(self.track, FileState::Copying),
            ),
            self.step == CopyStep::CreateParent ==> r == CopyAction::CreateDir(self.parent),
            self.step == CopyStep::Transfer ==> r == (CopyAction::Transfer {
                from: self.track.file_path,
                to: self.target,
                link: self.link,
            }),
            self.step == CopyStep::MarkCopied ==> r == CopyAction::WriteRow(
                row_in_state(self.track, FileState::Copied),
            ),
            self.step == CopyStep::Done ==> r == CopyAction::Finished,
            self.step == CopyStep::Failed ==> r == CopyAction::Abandoned,
    {
        match self.step {
            CopyStep::MarkCopying => {
                let mut row = self.track.copy();
                row.file_state = FileState::Copying;
                CopyAction::WriteRow(row)
            },
            CopyStep::CreateParent => CopyAction::CreateDir(self.parent.clone()),
            CopyStep::Transfer => CopyAction::Transfer {
                from: self.track.file_path.clone(),
                to: self.target.clone(),
                link: self.link,
            },
            CopyStep::MarkCopied => {
                let mut row = self.track.copy();
                row.file_state = FileState::Copied;
                CopyAction::WriteRow(row)
            },
            CopyStep::Done => CopyAction::Finished,
            CopyStep::Failed => CopyAction::Abandoned,
        }
    }

    /// Moves on after the current action succeeded (`ok`) or failed.
    pub fn advance(&mut self, ok: bool)
        ensures
            final(self).step == next_copy_step(old(self).step, ok),
            final(self).track == old(self).track,
            final(self).target == old(self).target,
            final(self).parent == old(self).parent,
            final(self).link == old(self).link,
    {
        self.step = match (self.step, ok) {
            (CopyStep::Done, _) => CopyStep::Done,
            (_, false) => CopyStep::Failed,
            (CopyStep::MarkCopying, true) => CopyStep::CreateParent,
            (CopyStep::CreateParent, true) => CopyStep::Transfer,
            (CopyStep::Transfer, true) => CopyStep::MarkCopied,
            (CopyStep::MarkCopied, true) => CopyStep::Done,
            (CopyStep::Failed, true) => CopyStep::Failed,
        };
    }

    pub fn is_finished(&self) -> (r: bool)
        ensures
            r == (self.step == CopyStep::Done || self.step == CopyStep::Failed),
    {
        self.step == CopyStep::Done || self.step == CopyStep::Failed
    }
}

/// A transfer whose four actions all succeed ends with the row of `id` in
/// state `Copied`, the rest of the catalog untouched.
pub proof fn lemma_copy_commits(m: CatalogModel, id: Seq<char>)
    ensures
        run_copy(m, id, CopyStep::MarkCopying, seq![true, true, true, true]) == (
            m.insert(id, FileState::Copied),
            CopyStep::Done,
        ),
{
    let o = seq![true, true, true, true];
    reveal_with_fuel(run_copy, 5);
    assert(o.drop_first() =~= seq![true, true, true]);
    assert(o.drop_first().drop_first() =~= seq![true, true]);
    assert(o.drop_first().drop_first().drop_first() =~= seq![true]);
    assert(o.drop_first().drop_first().drop_first().drop_first() =~= Seq::<bool>::empty());
    assert(m.insert(id, FileState::Copying).insert(id, FileState::Copied) =~= m.insert(id, FileState::Copied));
}

/// The state of a run that began at `MarkCopying` on catalog `m`.
pub open spec fn copy_run_invariant(m: CatalogModel, id: Seq<char>, r: (CatalogModel, CopyStep)) -> bool {
    match r.1 {
        CopyStep::MarkCopying => r.0 == m,
        CopyStep::CreateParent | CopyStep::Transfer | CopyStep::MarkCopied => r.0 == m.insert(
            id,
            FileState::Copying,
        ),
        CopyStep::Done => r.0 == m.insert(id, FileState::Copied),
        CopyStep::Failed => r.0 == m || r.0 == m.insert(id, FileState::Copying),
    }
}

proof fn lemma_copy_run_from(m: CatalogModel, id: Seq<char>, r: (CatalogModel, CopyStep), outcomes: Seq<bool>)
    requires
        copy_run_invariant(m, id, r),
    ensures
        copy_run_invariant(m, id, run_copy(r.0, id, r.1, outcomes)),
    decreases outcomes.len(),
{
    if outcomes.len() > 0 {
        let next = (copy_effect(r.0, id, r.1, outcomes[0]), next_copy_step(r.1, outcomes[0]));
        if r.1 == CopyStep::MarkCopied && outcomes[0] {
            assert(m.insert(id, FileState::Copying).insert(id, FileState::Copied) =~= m.insert(
                id,
                FileState::Copied,
            ));
        }
        if r.1 == CopyStep::MarkCopying && outcomes[0] {
            assert(next.0 == m.insert(id, FileState::Copying));
        }
        if r.1 == CopyStep::Done {
            assert(next.0 == r.0);
        }
        lemma_copy_run_from(m, id, next, outcomes.drop_first());
    }
}

/// Crash safety of a transfer: whatever its actions' outcomes, and wherever
/// it stops, the destination row of `id` is either as it was, or in state
/// `Copying`, or in state `Copied` with the transition complete. A `Copied`
/// row is thus never written unless the content transfer succeeded, and the
/// rest of the catalog is never touched.
pub proof fn lemma_copy_crash_safe(m: CatalogModel, id: Seq<char>, outcomes: Seq<bool>)
    ensures
        copy_run_invariant(m, id, run_copy(m, id, CopyStep::MarkCopying, outcomes)),
        run_copy(m, id, CopyStep::MarkCopying, outcomes).1 == CopyStep::Done ==> outcomes.len() >= 4
            && outcomes[2],
{
    lemma_copy_run_from(m, id, (m, CopyStep::MarkCopying), outcomes);
    lemma_done_needs_transfer(m, id, CopyStep::MarkCopying, outcomes);
}

proof fn lemma_done_needs_transfer(m: CatalogModel, id: Seq<char>, step: CopyStep, outcomes: Seq<bool>)
    ensures
        step == CopyStep::MarkCopying && run_copy(m, id, step, outcomes).1 == CopyStep::Done
            ==> outcomes.len() >= 4 && outcomes[2],
        step == CopyStep::CreateParent && run_copy(m, id, step, outcomes).1 == CopyStep::Done
            ==> outcomes.len() >= 3 && outcomes[1],
        step == CopyStep::Transfer && run_copy(m, id, step, outcomes).1 == CopyStep::Done
            ==> outcomes.len() >= 2 && outcomes[0],
        step == CopyStep::MarkCopied && run_copy(m, id, step, outcomes).1 == CopyStep::Done
            ==> outcomes.len() >= 1,
        step == CopyStep::Failed ==> run_copy(m, id, step, outcomes).1 == CopyStep::Failed,
    decreases outcomes.len(),
{
    if outcomes.len() > 0 {
        let rest = outcomes.drop_first();
        let m2 = copy_effect(m, id, step, outcomes[0]);
        let s2 = next_copy_step(step, outcomes[0]);
        lemma_done_needs_transfer(m2, id, s2, rest);
        if outcomes.len() >= 2 {
            assert(rest[0] == outcomes[1]);
        }
        if outcomes.len() >= 3 {
            assert(rest[1] == outcomes[2]);
        }
    }
}

/// The rows that an interrupted transfer left behind: those in state
/// `Copying`, in order.
pub open spec fn copying_rows(rows: Seq<Track>) -> Seq<Track>
    decreases rows.len(),
{
    if rows.len() == 0 {
        Seq::empty()
    } else if rows.last().file_state == FileState::Copying {
        copying_rows(rows.drop_last()).push(rows.last())
    } else {
        copying_rows(rows.drop_last())
    }
}

/// The destination rows that the recovery pass removes, row and file: every
/// row still in state `Copying`.
pub fn recovery_targets(rows: &Vec<Track>) -> (r: Vec<Track>)
    ensures
        r@ == copying_rows(rows@),
{
    let mut r: Vec<Track> = Vec::new();
    let mut i: usize = 0;
    while i < rows.len()
        invariant
            i <= rows@.len(),
            r@ == copying_rows(rows@.subrange(0, i as int)),
        decreases rows.len() - i,
    {
        assert(rows@.subrange(0, i + 1).drop_last() =~= rows@.subrange(0, i as int));
        if rows[i].file_state == FileState::Copying {
            r.push(rows[i].copy());
        }
        i = i + 1;
    }
    assert(rows@.subrange(0, rows@.len() as int) =~= rows@);
    r
}

proof fn lemma_catalog_of_rows(rows: Seq<Track>)
    requires
        unique_ids(rows),
    ensures
        catalog_of(rows).dom() == id_set(rows),
        forall|i: int| 0 <= i < rows.len() ==> catalog_of(rows)[#[trigger] rows[i].track_id@] == rows[i].file_state,
    decreases rows.len(),
{
    if rows.len() > 0 {
        let init = rows.drop_last();
        let x = rows.last().track_id@;
        assert(track_ids(rows) =~= track_ids(init).push(x));
        assert(unique_ids(init)) by {
            assert(track_ids(init) =~= track_ids(rows).subrange(0, init.len() as int));
        }
        lemma_catalog_of_rows(init);
        track_ids(init).lemma_push_to_set_commute(x);
        assert(catalog_of(rows).dom() =~= id_set(rows));
        assert forall|i: int| 0 <= i < rows.len() implies catalog_of(rows)[#[trigger] rows[i].track_id@]
            == rows[i].file_state by {
            if i < rows.len() - 1 {
                assert(track_ids(rows)[i] != track_ids(rows)[rows.len() - 1]);
                assert(init[i] == rows[i]);
            }
        }
    }
}

proof fn lemma_copying_rows_ids(rows: Seq<Track>)
    requires
        unique_ids(rows),
    ensures
        id_set(copying_rows(rows)) == ids_in_state(catalog_of(rows), FileState::Copying),
    decreases rows.len(),
{
    lemma_catalog_of_rows(rows);
    if rows.len() > 0 {
        let init = rows.drop_last();
        let x = rows.last().track_id@;
        assert(track_ids(rows) =~= track_ids(init).push(x));
        assert(unique_ids(init)) by {
            assert(track_ids(init) =~= track_ids(rows).subrange(0, init.len() as int));
        }
        lemma_copying_rows_ids(init);
        lemma_catalog_of_rows(init);
        track_ids(init).lemma_push_to_set_commute(x);
        assert(!id_set(init).contains(x)) by {
            if id_set(init).contains(x) {
                let j = choose|j: int| 0 <= j < track_ids(init).len() && track_ids(init)[j] == x;
                assert(track_ids(rows)[j] == track_ids(rows)[rows.len() - 1]);
            }
        }
        if rows.last().file_state == FileState::Copying {
            assert(track_ids(copying_rows(rows)) =~= track_ids(copying_rows(init)).push(x));
            track_ids(copying_rows(init)).lemma_push_to_set_commute(x);
        }
        assert(id_set(copying_rows(rows)) =~= ids_in_state(catalog_of(rows), FileState::Copying));
    }
}

/// The recovery pass, applied to a catalog whose identities are unique,
/// removes every row in state `Copying` and leaves every other row,
/// `Copied` ones included, as it was.
pub proof fn lemma_recovery_clears_markers(rows: Seq<Track>)
    requires
        unique_ids(rows),
    ensures
        ({
            let after = catalog_of(rows).remove_keys(id_set(copying_rows(rows)));
            &&& ids_in_state(after, FileState::Copying) == Set::<Seq<char>>::empty()
            &&& forall|k: Seq<char>|
                catalog_of(rows).contains_key(k) && catalog_of(rows)[k] != FileState::Copying
                    ==> #[trigger] after.contains_key(k) && after[k] == catalog_of(rows)[k]
            &&& ids_in_state(after, FileState::Copied) == ids_in_state(catalog_of(rows), FileState::Copied)
        }),
{
    lemma_copying_rows_ids(rows);
    let m = catalog_of(rows);
    let after = m.remove_keys(id_set(copying_rows(rows)));
    assert(ids_in_state(after, FileState::Copying) =~= Set::<Seq<char>>::empty());
    assert(ids_in_state(after, FileState::Copied) =~= ids_in_state(m, FileState::Copied));
}

/// The destination after the transfers of `ids`, one after the other, each
/// with all four actions succeeding.
pub open spec fn apply_copies(m: CatalogModel, ids: Seq<Seq<char>>) -> CatalogModel
    decreases ids.len(),
{
    if ids.len() == 0 {
        m
    } else {
        run_copy(apply_copies(m, ids.drop_last()), ids.last(), CopyStep::MarkCopying, seq![true, true, true, true]).0
    }
}

/// The destination after the retractions of `ids` removed their rows.
pub open spec fn apply_retractions(m: CatalogModel, ids: Seq<Seq<char>>) -> CatalogModel
    decreases ids.len(),
{
    if ids.len() == 0 {
        m
    } else {
        apply_retractions(m, ids.drop_last()).remove(ids.last())
    }
}

/// Completed transfers set the row of each transferred identity to `Copied`.
pub proof fn lemma_apply_copies(m: CatalogModel, ids: Seq<Seq<char>>)
    ensures
        apply_copies(m, ids) == m.union_prefer_right(
            Map::new(|k: Seq<char>| ids.contains(k), |k: Seq<char>| FileState::Copied),
        ),
    decreases ids.len(),
{
    if ids.len() > 0 {
        let init = ids.drop_last();
        lemma_apply_copies(m, init);
        lemma_copy_commits(apply_copies(m, init), ids.last());
        assert(ids =~= init.push(ids.last()));
        assert(apply_copies(m, ids) =~= m.union_prefer_right(
            Map::new(|k: Seq<char>| ids.contains(k), |k: Seq<char>| FileState::Copied),
        ));
    }
}

/// Completed retractions remove the rows of the retracted identities.
pub proof fn lemma_apply_retractions(m: CatalogModel, ids: Seq<Seq<char>>)
    ensures
        apply_retractions(m, ids) == m.remove_keys(ids.to_set()),
    decreases ids.len(),
{
    if ids.len() > 0 {
        let init = ids.drop_last();
        lemma_apply_retractions(m, init);
        assert(ids =~= init.push(ids.last()));
        init.lemma_push_to_set_commute(ids.last());
        assert(apply_retractions(m, ids) =~= m.remove_keys(ids.to_set()));
    }
}

/// What the removal of a track's file reported.
#[derive(Debug, Clone, Copy, PartialEq, Eq, Structural)]
pub enum Removal {
    Removed,
    /// There was no file at the path.
    Absent,
    Failed,
}

/// A retraction: first the destination row goes, then the file.
pub struct Retraction {
    /// The store-local id of the row to delete.
    pub row: i64,
    /// The file to remove once the row is gone.
    pub file: String,
}

/// The retraction of `track` from a destination rooted at `base`.
pub fn retraction(track: &Track, base: &str) -> (r: Retraction)
    ensures
        r.row == track.id,
        r.file@ == track.spec_storage_path(base@),
{
    Retraction { row: track.id, file: track.storage_path(base) }
}

/// How a retraction ends once its row is deleted and the removal of `path`
/// reported `outcome`. A missing file counts as removed only when
/// `tolerate_absent` is set, as in the recovery pass; any other failure
/// names the orphaned path.
pub fn removal_result(path: String, outcome: Removal, tolerate_absent: bool) -> (r: Result<(), Error>)
    ensures
        r is Ok <==> (outcome == Removal::Removed || (outcome == Removal::Absent && tolerate_absent)),
        r is Err ==> r == Err::<(), Error>(Error::OrphanedFile(path)),
{
    match outcome {
        Removal::Removed => Ok(()),
        Removal::Absent => {
            if tolerate_absent {
                Ok(())
            } else {
                Err(Error::OrphanedFile(path))
            }
        },
        Removal::Failed => Err(Error::OrphanedFile(path)),
    }
}

} // verus!
