use tracksync::model::{track_hash, FileState, Track};
use tracksync::pipeline::{
    recovery_targets, removal_result, retraction, parent, CopyAction, CopyJob, CopyStep, Removal,
};
use tracksync::reconcile::{diff, diff_databases, filter_tracks, filter_tracks_by_id, reconcile};
use tracksync::cmd::error::Error;

fn track(title: &str, state: FileState) -> Track {
    Track {
        id: 0,
        artist: "Artist".to_string(),
        album: "Album".to_string(),
        title: title.to_string(),
        extension: "flac".to_string(),
        file_path: format!("/src/{}.flac", title),
        track_id: track_hash("Artist", "Album", title, "flac"),
        file_state: state,
        ..Default::default()
    }
}

fn ids(v: &[&Track]) -> Vec<String> {
    v.iter().map(|t| t.track_id.clone()).collect()
}

fn sorted(mut v: Vec<String>) -> Vec<String> {
    v.sort();
    v
}

/// Runs the copy and delete pipelines against an in-memory destination.
fn apply(dest: &mut Vec<Track>, source: &[Track], copy: &[String], delete: &[String]) {
    for id in delete {
        let row = dest.iter().find(|t| &t.track_id == id).unwrap().clone();
        let r = retraction(&row, "/dest");
        assert_eq!(r.row, row.id);
        dest.retain(|t| &t.track_id != id);
    }
    for id in copy {
        let t = source.iter().find(|t| &t.track_id == id).unwrap();
        let mut job = CopyJob::start(t, "/dest", false);
        while !job.is_finished() {
            if let CopyAction::WriteRow(row) = job.action() {
                dest.retain(|r| r.track_id != row.track_id);
                dest.push(row);
            }
            job.advance(true);
        }
        assert_eq!(job.step, CopyStep::Done);
    }
}

fn copied(dest: &[Track]) -> Vec<String> {
    sorted(dest.iter().filter(|t| t.file_state == FileState::Copied).map(|t| t.track_id.clone()).collect())
}

#[test]
fn diff_is_set_difference() {
    let s = vec!["a".to_string(), "b".to_string(), "b".to_string(), "c".to_string()];
    let d = vec!["c".to_string(), "x".to_string()];
    assert_eq!(diff(&s, &d), vec!["a".to_string(), "b".to_string()]);
    assert_eq!(diff(&d, &s), vec!["x".to_string()]);
    assert!(diff(&s, &s).is_empty());
    assert!(diff(&vec![], &d).is_empty());
}

#[test]
fn filter_drops_excluded_unless_deleting() {
    let a = track("A", FileState::Copied);
    let b = track("B", FileState::Copied);
    let c = track("C", FileState::Copied);
    let tracks = vec![a.clone(), b.clone(), c.clone()];
    let verdicts = vec![false, true, false];
    let kept = filter_tracks(tracks.clone(), Some(&verdicts), false);
    assert_eq!(ids(&kept.iter().collect::<Vec<_>>()), ids(&[&a, &c]));
    let all = filter_tracks(tracks.clone(), Some(&verdicts), true);
    assert_eq!(all.len(), 3);
    let none = filter_tracks(tracks.clone(), None, false);
    assert_eq!(none.len(), 3);
    assert_eq!(filter_tracks_by_id(Some(&verdicts), tracks), ids(&[&a, &c]));
}

#[test]
fn diff_databases_counts_excluded_as_missing() {
    let a = track("A", FileState::Copied);
    let b = track("B", FileState::Copied);
    let dest = vec![a.clone(), b.clone()];
    let verdicts = vec![false, true];
    let retract = diff_databases(vec![a.clone(), b.clone()], &dest, Some(&verdicts), false);
    assert_eq!(retract, ids(&[&b]));
    let none = diff_databases(vec![a.clone(), b.clone()], &dest, Some(&verdicts), true);
    assert!(none.is_empty());
}

#[test]
fn scenario_copy_b_delete_c() {
    let a = track("A", FileState::Copied);
    let b = track("B", FileState::Copied);
    let c = track("C", FileState::Copied);
    let source = vec![a.clone(), b.clone()];
    let mut dest = vec![a.clone(), c.clone()];
    let (copy, delete) = reconcile(&source, None, &dest);
    assert_eq!(copy, ids(&[&b]));
    assert_eq!(delete, ids(&[&c]));
    apply(&mut dest, &source, &copy, &delete);
    assert_eq!(copied(&dest), sorted(ids(&[&a, &b])));
}

#[test]
fn scenario_filter_excludes_b() {
    let a = track("A", FileState::Copied);
    let b = track("B", FileState::Copied);
    let c = track("C", FileState::Copied);
    let source = vec![a.clone(), b.clone()];
    let dest = vec![a.clone(), c.clone()];
    let verdicts = vec![false, true];
    let (copy, delete) = reconcile(&source, Some(&verdicts), &dest);
    assert!(copy.is_empty());
    assert_eq!(delete, ids(&[&c]));
}

#[test]
fn excluded_track_already_mirrored_is_retracted() {
    let a = track("A", FileState::Copied);
    let b = track("B", FileState::Copied);
    let source = vec![a.clone(), b.clone()];
    let dest = vec![a.clone(), b.clone()];
    let verdicts = vec![false, true];
    let (copy, delete) = reconcile(&source, Some(&verdicts), &dest);
    assert!(copy.is_empty());
    assert_eq!(delete, ids(&[&b]));
}

#[test]
fn sync_without_filter_mirrors_source() {
    let s: Vec<Track> = ["A", "B", "C", "D"].iter().map(|n| track(n, FileState::Copied)).collect();
    let mut dest: Vec<Track> = ["C", "D", "E", "F"].iter().map(|n| track(n, FileState::Copied)).collect();
    let (copy, delete) = reconcile(&s, None, &dest);
    apply(&mut dest, &s, &copy, &delete);
    assert_eq!(copied(&dest), sorted(s.iter().map(|t| t.track_id.clone()).collect()));
}

#[test]
fn reconcile_twice_is_empty() {
    let s: Vec<Track> = ["A", "B", "C"].iter().map(|n| track(n, FileState::Copied)).collect();
    let mut dest: Vec<Track> = ["C", "X"].iter().map(|n| track(n, FileState::Copied)).collect();
    let verdicts = vec![false, true, false];
    let (copy, delete) = reconcile(&s, Some(&verdicts), &dest);
    apply(&mut dest, &s, &copy, &delete);
    let (copy2, delete2) = reconcile(&s, Some(&verdicts), &dest);
    assert!(copy2.is_empty());
    assert!(delete2.is_empty());
}

#[test]
fn copy_job_writes_marker_before_transfer() {
    let t = track("Song", FileState::Copied);
    let mut job = CopyJob::start(&t, "/dest", true);
    assert_eq!(job.target, "/dest/Artist/Album/0/Song.flac");
    assert_eq!(job.parent, "/dest/Artist/Album/0");
    match job.action() {
        CopyAction::WriteRow(row) => {
            assert_eq!(row.file_state, FileState::Copying);
            assert_eq!(row.track_id, t.track_id);
        }
        other => panic!("unexpected {:?}", other),
    }
    job.advance(true);
    assert!(matches!(job.action(), CopyAction::CreateDir(d) if d == "/dest/Artist/Album/0"));
    job.advance(true);
    match job.action() {
        CopyAction::Transfer { from, to, link } => {
            assert_eq!(from, "/src/Song.flac");
            assert_eq!(to, "/dest/Artist/Album/0/Song.flac");
            assert!(link);
        }
        other => panic!("unexpected {:?}", other),
    }
    job.advance(true);
    assert!(matches!(job.action(), CopyAction::WriteRow(row) if row.file_state == FileState::Copied));
    job.advance(true);
    assert!(matches!(job.action(), CopyAction::Finished));
    assert!(job.is_finished());
}

#[test]
fn failed_transfer_never_commits() {
    let t = track("Song", FileState::Copied);
    let mut job = CopyJob::start(&t, "/dest", false);
    job.advance(true);
    job.advance(true);
    assert_eq!(job.step, CopyStep::Transfer);
    job.advance(false);
    assert_eq!(job.step, CopyStep::Failed);
    assert!(matches!(job.action(), CopyAction::Abandoned));
    job.advance(true);
    assert_eq!(job.step, CopyStep::Failed);
}

#[test]
fn recovery_takes_only_copying_rows() {
    let a = track("A", FileState::Copied);
    let x = track("X", FileState::Copying);
    let u = track("U", FileState::Unknown);
    let y = track("Y", FileState::Copying);
    let targets = recovery_targets(&vec![a, x.clone(), u, y.clone()]);
    assert_eq!(ids(&targets.iter().collect::<Vec<_>>()), ids(&[&x, &y]));
}

#[test]
fn recovery_tolerates_missing_file() {
    let x = track("X", FileState::Copying);
    let r = retraction(&x, "/dest");
    assert_eq!(r.file, "/dest/Artist/Album/0/X.flac");
    assert!(removal_result(r.file.clone(), Removal::Absent, true).is_ok());
    assert!(removal_result(r.file.clone(), Removal::Removed, true).is_ok());
    assert!(matches!(
        removal_result(r.file.clone(), Removal::Failed, true),
        Err(Error::OrphanedFile(p)) if p == r.file
    ));
}

#[test]
fn retraction_reports_orphaned_file() {
    assert!(removal_result("/d/f".to_string(), Removal::Removed, false).is_ok());
    assert!(matches!(
        removal_result("/d/f".to_string(), Removal::Absent, false),
        Err(Error::OrphanedFile(p)) if p == "/d/f"
    ));
    assert!(matches!(
        removal_result("/d/f".to_string(), Removal::Failed, false),
        Err(Error::OrphanedFile(p)) if p == "/d/f"
    ));
}

#[test]
fn parent_directory() {
    assert_eq!(parent("/a/b/c.flac"), "/a/b");
    assert_eq!(parent("/x"), "/");
    assert_eq!(parent("x"), "");
}
