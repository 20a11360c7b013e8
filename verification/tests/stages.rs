use convert_invert::download::{
    classify_stream, download_gate, download_path, has_been_downloaded, is_audio_file,
    DownloadOutcome, DownloadStatus, DownloadableFiles,
};
use convert_invert::events::{RejectReason, SearchRequest};
use convert_invert::items::{DownloadableFile, JudgeSubmission, SearchItem};
use convert_invert::judge::{levenshtein, levenshtein_judge, select_accepted};
use convert_invert::search::{
    build_submissions, query_string, FileEntry, OwnSearchResult, SearchSession,
};

fn item(id: u64, track: &str, album: &str, artist: &str) -> SearchItem {
    SearchItem {
        id,
        track: track.to_string(),
        album: album.to_string(),
        artist: artist.to_string(),
    }
}

fn submission(track: SearchItem, filename: &str, username: &str, size: u64) -> JudgeSubmission {
    JudgeSubmission {
        track,
        query: DownloadableFile {
            filename: filename.to_string(),
            username: username.to_string(),
            size,
        },
    }
}

fn request(item: SearchItem) -> SearchRequest {
    SearchRequest {
        item,
        search_attempts: 0,
        judge_attempts: 0,
        download_attempts: 0,
        timeout_secs: 10,
    }
}

#[test]
fn download_path_uses_basename() {
    let root = "/tmp/downloads".to_string();
    let sub = submission(item(1, "Track", "Album", "Artist"), "folder/file.mp3", "user", 1);
    let path = download_path(&root, &sub).expect("path");
    assert_eq!(path, "/tmp/downloads/file.mp3");
}

#[test]
fn download_path_ignores_trailing_separators_and_dots() {
    let root = "/tmp".to_string();
    let trailing = submission(item(1, "T", "A", "X"), "folder/", "user", 1);
    assert_eq!(download_path(&root, &trailing).expect("path"), "/tmp/folder");
    let dotted = submission(item(1, "T", "A", "X"), "b/.", "user", 1);
    assert_eq!(download_path(&root, &dotted).expect("path"), "/tmp/b");
    let both = submission(item(1, "T", "A", "X"), "a/b/.//", "user", 1);
    assert_eq!(download_path(&root, &both).expect("path"), "/tmp/b");
}

#[test]
fn download_path_rejects_names_without_a_component() {
    let root = "/tmp".to_string();
    for name in ["", "/", ".", "..", "a/..", "a/../", "./."] {
        let sub = submission(item(1, "T", "A", "X"), name, "user", 1);
        assert!(download_path(&root, &sub).is_err(), "{name} must not resolve");
    }
}

#[test]
fn audio_extension_gate() {
    assert!(is_audio_file("song.mp3".to_string()));
    assert!(is_audio_file("SONG.MP3".to_string()));
    assert!(is_audio_file("a/b/record.FlAc".to_string()));
    assert!(is_audio_file("take.aiff".to_string()));
    assert!(!is_audio_file("notes.txt".to_string()));
    assert!(!is_audio_file("song.mp3.part".to_string()));
    assert!(!is_audio_file("mp3".to_string()));
    // Only ASCII letters fold: a control character 32 below '.' is not '.'.
    assert!(!is_audio_file("song\u{000e}mp3".to_string()));
}

#[test]
fn duplicate_download_detection() {
    let tracks = vec![item(1, "T", "A", "X"), item(2, "U", "B", "Y")];
    assert!(has_been_downloaded(&item(1, "other", "other", "other"), &tracks));
    assert!(!has_been_downloaded(&item(3, "T", "A", "X"), &tracks));
}

#[test]
fn gate_rejects_non_music_then_duplicates() {
    let downloaded = vec![item(7, "T", "A", "X")];
    let non_audio = submission(item(9, "T", "A", "X"), "T - X.txt", "u", 1);
    match download_gate(&non_audio, &downloaded) {
        Some(RejectReason::NotMusic(name)) => assert_eq!(name, "T - X.txt"),
        other => panic!("unexpected gate answer: {:?}", other),
    }
    let duplicate = submission(item(7, "T", "A", "X"), "T.mp3", "u", 1);
    assert!(matches!(
        download_gate(&duplicate, &downloaded),
        Some(RejectReason::AlreadyDownloaded)
    ));
    let fresh = submission(item(8, "T", "A", "X"), "T.mp3", "u", 1);
    assert!(download_gate(&fresh, &downloaded).is_none());
}

#[test]
fn classify_stream_takes_first_terminal() {
    let q = DownloadStatus::Queued;
    let p = DownloadStatus::InProgress { bytes_downloaded: 4, total_bytes: 8, speed_bytes_per_sec: 2 };
    assert_eq!(classify_stream(&vec![q, p, DownloadStatus::Completed]), DownloadOutcome::Completed);
    assert_eq!(classify_stream(&vec![q, DownloadStatus::Failed, DownloadStatus::Completed]), DownloadOutcome::Failed);
    assert_eq!(classify_stream(&vec![DownloadStatus::TimedOut]), DownloadOutcome::TimedOut);
    assert_eq!(classify_stream(&vec![q, p]), DownloadOutcome::TimedOut);
    assert_eq!(classify_stream(&vec![]), DownloadOutcome::TimedOut);
}

#[test]
fn query_string_formats_track_and_artist() {
    let q = query_string(&item(1, "Song", "Album", "Band"));
    assert_eq!(q, "Song - Band");
}

#[test]
fn session_deduplicates_across_polls() {
    let mut session = SearchSession::new(item(1, "T", "A", "X"));
    let entry = FileEntry { name: "T.mp3".to_string(), username: "u".to_string(), size: 100 };
    session.absorb_poll(&vec![entry.clone()]);
    assert_eq!(session.submissions.len(), 1);
    assert_eq!(session.empty_polls, 0);
    session.absorb_poll(&vec![entry.clone()]);
    assert_eq!(session.submissions.len(), 1);
    assert_eq!(session.empty_polls, 1);
    let other = FileEntry { name: "T.mp3".to_string(), username: "v".to_string(), size: 100 };
    session.absorb_poll(&vec![entry, other]);
    assert_eq!(session.submissions.len(), 2);
    assert_eq!(session.empty_polls, 0);
}

#[test]
fn session_cancels_after_empty_polls() {
    let mut session = SearchSession::new(item(1, "T", "A", "X"));
    let empty: Vec<FileEntry> = vec![];
    for _ in 0..4 {
        assert!(!session.is_done());
        session.absorb_poll(&empty);
    }
    assert!(session.is_done());
    let results = session.into_results(request(item(1, "T", "A", "X")));
    assert!(results.submissions.is_empty());
}

#[test]
fn build_submissions_maps_every_file() {
    let track = item(1, "T", "A", "X");
    let files = vec![
        FileEntry { name: "a.mp3".to_string(), username: "u".to_string(), size: 1 },
        FileEntry { name: "b.mp3".to_string(), username: "v".to_string(), size: 2 },
    ];
    let subs = build_submissions(&track, &files);
    assert_eq!(subs.len(), 2);
    assert_eq!(subs[0].query.filename, "a.mp3");
    assert_eq!(subs[1].query.username, "v");
    assert_eq!(subs[1].track.id, 1);
}

#[test]
fn select_accepted_filters_in_order() {
    let track = item(1, "T", "A", "X");
    let subs = vec![
        submission(track.clone(), "a.mp3", "u", 1),
        submission(track.clone(), "b.mp3", "u", 1),
        submission(track.clone(), "c.mp3", "u", 1),
    ];
    let judged = select_accepted(request(track), subs, &vec![true, false, true]);
    assert_eq!(judged.total, 3);
    assert_eq!(judged.accepted.len(), 2);
    assert_eq!(judged.accepted[0].submission.query.filename, "a.mp3");
    assert_eq!(judged.accepted[1].submission.query.filename, "c.mp3");
}

#[test]
fn judge_accepts_matching_submissions() {
    let track = item(1, "Track", "Album", "Artist");
    let subs = vec![
        submission(track.clone(), "not_ok.mp3", "user", 1),
        submission(track.clone(), "ok.mp3", "user", 1),
    ];
    let judged = select_accepted(request(track), subs, &vec![false, true]);
    assert_eq!(judged.total, 2);
    assert_eq!(judged.accepted.len(), 1);
    assert_eq!(judged.accepted[0].submission.query.filename, "ok.mp3");
}

#[test]
fn levenshtein_exact_distances() {
    assert_eq!(levenshtein("kitten", "sitting"), 3);
    assert_eq!(levenshtein("", "abc"), 3);
    assert_eq!(levenshtein("abc", ""), 3);
    assert_eq!(levenshtein("same", "same"), 0);
    assert_eq!(levenshtein("flaw", "lawn"), 2);
}

#[test]
fn levenshtein_judge_against_cutoff() {
    // rendered "T - X - A" against "T - X - A" is identical: similarity 1.
    let exact = submission(item(1, "T", "A", "X"), "T - X - A", "u", 1);
    assert!(levenshtein_judge(&exact, 750));
    // "T - X - A" against "T - X - A.mp3": distance 4 over length 13.
    let close = submission(item(1, "T", "A", "X"), "T - X - A.mp3", "u", 1);
    assert!(levenshtein_judge(&close, 500));
    assert!(!levenshtein_judge(&close, 750));
    let far = submission(item(1, "T", "A", "X"), "zzzzzzzzzz", "u", 1);
    assert!(!levenshtein_judge(&far, 500));
}

#[test]
fn downloadable_files_conversion() {
    let files = vec![FileEntry { name: "a.mp3".to_string(), username: "u".to_string(), size: 3 }];
    let batch = DownloadableFiles::from_entries(&files);
    let plain = batch.into_vec();
    assert_eq!(plain.len(), 1);
    assert_eq!(plain[0].filename, "a.mp3");
    assert_eq!(plain[0].size, 3);
    let names = OwnSearchResult::from_entries(&files);
    assert_eq!(names.filenames, vec!["a.mp3".to_string()]);
}
