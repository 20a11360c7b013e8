use convert_invert::coordinator::{
    Coordinator, EventKind, JudgeScript, WorkerScripts,
};
use convert_invert::download::DownloadOutcome;
use convert_invert::events::{RejectReason, Track};
use convert_invert::items::SearchItem;
use convert_invert::retry::PipelineSettings;
use convert_invert::search::FileEntry;

fn settings() -> PipelineSettings {
    PipelineSettings {
        search_timeout_secs: 10,
        max_search_timeout_secs: 120,
        max_search_retries: 2,
        max_judge_retries: 2,
        max_download_retries: 2,
        base_backoff_secs: 5,
        max_backoff_secs: 60,
        max_concurrent_searches: 4,
        max_concurrent_judges: 8,
        max_concurrent_downloads: 2,
    }
}

fn item(id: u64, track: &str, album: &str, artist: &str) -> SearchItem {
    SearchItem {
        id,
        track: track.to_string(),
        album: album.to_string(),
        artist: artist.to_string(),
    }
}

fn entry(name: &str, username: &str, size: u64) -> FileEntry {
    FileEntry { name: name.to_string(), username: username.to_string(), size }
}

fn scripts(
    search_polls: Vec<Vec<Vec<FileEntry>>>,
    judge: JudgeScript,
    download_outcomes: Vec<DownloadOutcome>,
) -> WorkerScripts {
    WorkerScripts { search_polls, next_search: 0, judge, download_outcomes, next_download: 0 }
}

fn kinds(log: &Vec<Track>) -> Vec<EventKind> {
    log.iter()
        .map(|t| match t {
            Track::Query(..) => EventKind::Query,
            Track::Search(..) => EventKind::Search,
            Track::SearchResults(..) => EventKind::SearchResults,
            Track::Judge(..) => EventKind::Judge,
            Track::JudgeResults(..) => EventKind::JudgeResults,
            Track::Downloadable(..) => EventKind::Downloadable,
            Track::DownloadFailed(..) => EventKind::DownloadFailed,
            Track::File(..) => EventKind::File,
            Track::Retry(..) => EventKind::Retry,
            Track::Reject(..) => EventKind::Reject,
        })
        .collect()
}

#[test]
fn happy_single_track() {
    let mut c = Coordinator::new(settings(), "/tmp/downloads".to_string());
    let mut s = scripts(
        vec![vec![vec![entry("T - X.mp3", "u", 100)]]],
        JudgeScript::AcceptAll,
        vec![DownloadOutcome::Completed],
    );
    c.seed_query(vec![item(1, "T", "A", "X")]);
    let quiescent = c.run(&mut s, 1000);
    assert!(quiescent);
    assert_eq!(
        kinds(&c.log),
        vec![
            EventKind::Query,
            EventKind::Search,
            EventKind::SearchResults,
            EventKind::Judge,
            EventKind::JudgeResults,
            EventKind::Downloadable,
            EventKind::File,
        ]
    );
    match c.log.last().unwrap() {
        Track::File(f) => {
            assert_eq!(f.path, "/tmp/downloads/T - X.mp3");
            assert_eq!(f.submission.track.id, 1);
        }
        other => panic!("expected a completed file, got {:?}", other),
    }
    assert_eq!(c.committed.len(), c.log.len());
}

#[test]
fn search_exhaustion_abandons() {
    let mut c = Coordinator::new(settings(), "/tmp/downloads".to_string());
    // Three search invocations, none of which ever finds anything.
    let mut s = scripts(
        vec![vec![], vec![], vec![]],
        JudgeScript::AcceptAll,
        vec![],
    );
    c.seed_query(vec![item(1, "T", "A", "X")]);
    let quiescent = c.run(&mut s, 1000);
    assert!(quiescent);
    let ks = kinds(&c.log);
    assert_eq!(ks.iter().filter(|k| **k == EventKind::Search).count(), 3);
    assert_eq!(ks.iter().filter(|k| **k == EventKind::SearchResults).count(), 3);
    assert_eq!(ks.iter().filter(|k| **k == EventKind::Retry).count(), 2);
    assert_eq!(ks.iter().filter(|k| **k == EventKind::Reject).count(), 1);
    match c.log.last().unwrap() {
        Track::Reject(r) => {
            assert!(matches!(r.reason, RejectReason::AbandonedAttemptingSearch));
        }
        other => panic!("expected an abandonment, got {:?}", other),
    }
}

#[test]
fn non_audio_candidate_is_rejected_at_the_gate() {
    let mut c = Coordinator::new(settings(), "/tmp/downloads".to_string());
    let mut s = scripts(
        vec![vec![vec![entry("T - X.txt", "u", 100)]]],
        JudgeScript::AcceptAll,
        vec![DownloadOutcome::Completed],
    );
    c.seed_query(vec![item(1, "T", "A", "X")]);
    let quiescent = c.run(&mut s, 1000);
    assert!(quiescent);
    let rejects: Vec<&Track> = c
        .log
        .iter()
        .filter(|t| matches!(t, Track::Reject(..)))
        .collect();
    assert_eq!(rejects.len(), 1);
    match rejects[0] {
        Track::Reject(r) => match &r.reason {
            RejectReason::NotMusic(name) => assert_eq!(name, "T - X.txt"),
            other => panic!("expected a non-music rejection, got {:?}", other),
        },
        _ => unreachable!(),
    }
    // The download script was never consumed: no download was attempted.
    assert_eq!(s.next_download, 0);
    assert!(!c.log.iter().any(|t| matches!(t, Track::File(..))));
}

#[test]
fn duplicate_candidates_are_suppressed() {
    let mut c = Coordinator::new(settings(), "/tmp/downloads".to_string());
    // The same candidate arrives in two polls of one session.
    let mut s = scripts(
        vec![vec![
            vec![entry("T.mp3", "u", 100)],
            vec![entry("T.mp3", "u", 100)],
        ]],
        JudgeScript::AcceptAll,
        vec![DownloadOutcome::Completed],
    );
    c.seed_query(vec![item(1, "T", "A", "X")]);
    let quiescent = c.run(&mut s, 1000);
    assert!(quiescent);
    let judged: Vec<&Track> = c
        .log
        .iter()
        .filter(|t| matches!(t, Track::Judge(..)))
        .collect();
    assert_eq!(judged.len(), 1);
    match judged[0] {
        Track::Judge(res) => assert_eq!(res.submissions.len(), 1),
        _ => unreachable!(),
    }
}

#[test]
fn download_timeout_retries_then_succeeds() {
    let mut c = Coordinator::new(settings(), "/tmp/downloads".to_string());
    let candidate = vec![vec![entry("T - X.mp3", "u", 100)]];
    let mut s = scripts(
        vec![candidate.clone(), candidate],
        JudgeScript::AcceptAll,
        vec![DownloadOutcome::TimedOut, DownloadOutcome::Completed],
    );
    c.seed_query(vec![item(1, "T", "A", "X")]);
    let quiescent = c.run(&mut s, 1000);
    assert!(quiescent);
    let ks = kinds(&c.log);
    assert_eq!(ks.iter().filter(|k| **k == EventKind::DownloadFailed).count(), 1);
    assert_eq!(ks.iter().filter(|k| **k == EventKind::Retry).count(), 1);
    assert_eq!(ks.iter().filter(|k| **k == EventKind::File).count(), 1);
    assert!(matches!(c.log.last().unwrap(), Track::File(..)));
    match &c.log[c.log.len() - 1] {
        Track::File(f) => assert_eq!(f.submission.track.id, 1),
        _ => unreachable!(),
    }
}

#[test]
fn quiescence_under_empty_input() {
    let mut c = Coordinator::new(settings(), "/tmp/downloads".to_string());
    let mut s = scripts(vec![], JudgeScript::AcceptAll, vec![]);
    c.seed_query(vec![]);
    assert_eq!(c.pending, 1);
    let quiescent = c.run(&mut s, 10);
    assert!(quiescent);
    assert_eq!(c.pending, 0);
    assert_eq!(c.inflight, 0);
    assert_eq!(kinds(&c.log), vec![EventKind::Query]);
}

#[test]
fn terminal_events_stay_exclusive() {
    // Two accepted candidates for one track: the first completes, and
    // the second is turned away as a duplicate instead of producing a
    // second terminal event.
    let mut c = Coordinator::new(settings(), "/tmp/downloads".to_string());
    let mut s = scripts(
        vec![vec![vec![
            entry("T - X.mp3", "u", 100),
            entry("T - X.flac", "v", 200),
        ]]],
        JudgeScript::AcceptAll,
        vec![DownloadOutcome::Completed, DownloadOutcome::Completed],
    );
    c.seed_query(vec![item(1, "T", "A", "X")]);
    let quiescent = c.run(&mut s, 1000);
    assert!(quiescent);
    let files = c.log.iter().filter(|t| matches!(t, Track::File(..))).count();
    assert_eq!(files, 1);
    let dup_rejects = c
        .log
        .iter()
        .filter(|t| match t {
            Track::Reject(r) => matches!(r.reason, RejectReason::AlreadyDownloaded),
            _ => false,
        })
        .count();
    assert_eq!(dup_rejects, 1);
}

#[test]
fn committed_records_match_processed_events() {
    let mut c = Coordinator::new(settings(), "/tmp/downloads".to_string());
    let mut s = scripts(
        vec![vec![vec![entry("T - X.mp3", "u", 100)]]],
        JudgeScript::AcceptAll,
        vec![DownloadOutcome::Completed],
    );
    c.seed_query(vec![item(1, "T", "A", "X")]);
    assert!(c.run(&mut s, 1000));
    assert_eq!(c.committed, kinds(&c.log));
}

#[test]
fn edit_distance_judge_in_the_pipeline() {
    let mut c = Coordinator::new(settings(), "/tmp/downloads".to_string());
    // "T - X - A" against "T - X - A.mp3" passes a 0.5 cutoff and
    // "junk.mp3" does not.
    let mut s = scripts(
        vec![vec![vec![
            entry("T - X - A.mp3", "u", 100),
            entry("junk.mp3", "v", 50),
        ]]],
        JudgeScript::EditDistance(500),
        vec![DownloadOutcome::Completed],
    );
    c.seed_query(vec![item(1, "T", "A", "X")]);
    assert!(c.run(&mut s, 1000));
    let accepted: Vec<&Track> = c
        .log
        .iter()
        .filter(|t| matches!(t, Track::Downloadable(..)))
        .collect();
    assert_eq!(accepted.len(), 1);
    match accepted[0] {
        Track::Downloadable(d) => assert_eq!(d.submission.query.filename, "T - X - A.mp3"),
        _ => unreachable!(),
    }
}
