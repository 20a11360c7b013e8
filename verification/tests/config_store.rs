use convert_invert::config::{parse_u64, Config, EnvValues};
use convert_invert::events::{
    DownloadedFile, RejectReason, RejectedTrack, RetryReason, RetryRequest, RetryTarget,
    SearchRequest,
};
use convert_invert::items::{DownloadableFile, JudgeSubmission, SearchItem};
use convert_invert::playlist::{
    search_items_from_playlist, ParseManager, QueryManager, RootStruct, RootStructTracks,
    RootStructTracksItemsItem, RootStructTracksItemsItemTrack,
    RootStructTracksItemsItemTrackAlbum, RootStructTracksItemsItemTrackArtistsItem,
};
use convert_invert::store::{
    format_u64, NewDownloadableFileRow, NewDownloadedFileRow, NewRejectedTrackRow,
    NewRetryRequestRow, NewSearchItemRow, RejectReasonRow, SearchItemRow,
};

fn item(id: u64, track: &str, album: &str, artist: &str) -> SearchItem {
    SearchItem {
        id,
        track: track.to_string(),
        album: album.to_string(),
        artist: artist.to_string(),
    }
}

fn submission(track: SearchItem, filename: &str) -> JudgeSubmission {
    JudgeSubmission {
        track,
        query: DownloadableFile {
            filename: filename.to_string(),
            username: "u".to_string(),
            size: 1,
        },
    }
}

#[test]
fn parse_u64_accepts_exactly_digit_strings() {
    assert_eq!(parse_u64("0"), Some(0));
    assert_eq!(parse_u64("123"), Some(123));
    assert_eq!(parse_u64("18446744073709551615"), Some(u64::MAX));
    assert_eq!(parse_u64("18446744073709551616"), None);
    assert_eq!(parse_u64(""), None);
    assert_eq!(parse_u64("12a"), None);
    assert_eq!(parse_u64("-3"), None);
    assert_eq!(parse_u64(" 3"), None);
}

#[test]
fn config_defaults_apply() {
    let c = Config::from_env_values(EnvValues::default()).expect("config");
    assert_eq!(c.run_id, "default_run_name");
    assert_eq!(c.listen_port, 3124);
    assert_eq!(c.search_timeout_secs, 10);
    assert_eq!(c.max_search_timeout_secs, 120);
    assert_eq!(c.max_search_retries, 2);
    assert_eq!(c.max_judge_retries, 2);
    assert_eq!(c.max_download_retries, 2);
    assert_eq!(c.base_backoff_secs, 5);
    assert_eq!(c.max_backoff_secs, 60);
    assert_eq!(c.max_concurrent_searches, 4);
    assert_eq!(c.max_concurrent_judges, 8);
    assert_eq!(c.max_concurrent_downloads, 2);
}

#[test]
fn config_reads_overrides_and_rejects_junk() {
    let mut values = EnvValues::default();
    values.run_id = Some("tonight".to_string());
    values.max_search_retries = Some("7".to_string());
    values.base_backoff_secs = Some("1".to_string());
    let c = Config::from_env_values(values).expect("config");
    assert_eq!(c.run_id, "tonight");
    assert_eq!(c.max_search_retries, 7);
    assert_eq!(c.base_backoff_secs, 1);

    let mut bad = EnvValues::default();
    bad.listen_port = Some("not-a-port".to_string());
    assert!(Config::from_env_values(bad).is_err());

    let mut too_big = EnvValues::default();
    too_big.max_search_retries = Some("300".to_string());
    assert!(Config::from_env_values(too_big).is_err());
}

#[test]
fn config_settings_carry_the_knobs() {
    let c = Config::from_env_values(EnvValues::default()).expect("config");
    let s = c.settings();
    assert_eq!(s.search_timeout_secs, 10);
    assert_eq!(s.max_backoff_secs, 60);
    assert_eq!(s.max_concurrent_downloads, 2);
}

#[test]
fn format_u64_round_trips_through_parse() {
    for n in [0u64, 7, 10, 105, 99999, u64::MAX] {
        let text = format_u64(n);
        assert_eq!(parse_u64(&text), Some(n));
    }
    assert_eq!(format_u64(500), "500");
}

#[test]
fn reject_reason_wire_round_trip() {
    let all = [
        RejectReasonRow::AlreadyDownloaded,
        RejectReasonRow::LowScore,
        RejectReasonRow::NotMusic,
        RejectReasonRow::AbandonedAttemptingSearch,
    ];
    for row in all {
        let wire = row.to_wire();
        let back = RejectReasonRow::from_wire(&wire).expect("known wire value");
        assert_eq!(back, row);
    }
    assert_eq!(
        RejectReasonRow::AbandonedAttemptingSearch.to_wire(),
        "abandoned_attempting_search"
    );
    assert!(RejectReasonRow::from_wire("nonsense").is_err());
}

#[test]
fn rejected_row_keeps_payload_in_value_column() {
    let sub = submission(item(1, "T", "A", "X"), "T.mp3");
    let low = RejectedTrack::new(sub.clone(), RejectReason::LowScore(500));
    let row = NewRejectedTrackRow::from_runtime(42, &low);
    assert_eq!(row.track, 42);
    assert_eq!(row.reason, RejectReasonRow::LowScore);
    assert_eq!(row.value, Some("500".to_string()));

    let not_music = RejectedTrack::new(sub.clone(), RejectReason::NotMusic("T.txt".to_string()));
    let row = NewRejectedTrackRow::from_runtime(43, &not_music);
    assert_eq!(row.reason, RejectReasonRow::NotMusic);
    assert_eq!(row.value, Some("T.txt".to_string()));

    let abandoned = RejectedTrack::new(sub, RejectReason::AbandonedAttemptingSearch);
    let row = NewRejectedTrackRow::from_runtime(44, &abandoned);
    assert_eq!(row.reason, RejectReasonRow::AbandonedAttemptingSearch);
    assert_eq!(row.value, None);
}

#[test]
fn rows_mirror_runtime_values() {
    let it = item(9, "T", "A", "X");
    let row = NewSearchItemRow::from_item(&it);
    assert_eq!(row.track_id, 9);
    assert_eq!(row.track, "T");
    assert_eq!(row.artist, "X");
    assert_eq!(row.album, "A");

    let stored = SearchItemRow {
        id: 1,
        track_id: 9,
        track: "T".to_string(),
        artist: "X".to_string(),
        album: "A".to_string(),
    };
    let back = stored.to_item();
    assert_eq!(back.id, 9);
    assert_eq!(back.track, "T");

    let file = DownloadableFile { filename: "f.mp3".to_string(), username: "u".to_string(), size: 5 };
    let frow = NewDownloadableFileRow::from_file(&file);
    assert_eq!(frow.size, 5);

    let downloaded = DownloadedFile {
        submission: submission(item(9, "T", "A", "X"), "f.mp3"),
        path: "/tmp/f.mp3".to_string(),
    };
    let drow = NewDownloadedFileRow::from_downloaded(&downloaded);
    assert_eq!(drow.filename, "/tmp/f.mp3");
}

#[test]
fn retry_row_records_next_attempts() {
    let next = SearchRequest {
        item: item(1, "T", "A", "X"),
        search_attempts: 0,
        judge_attempts: 0,
        download_attempts: 2,
        timeout_secs: 10,
    };
    let retry = RetryRequest {
        target: RetryTarget::Search(next),
        reason: RetryReason::DownloadFailed(convert_invert::events::DownloadFailure::TimedOut),
        backoff_secs: 10,
    };
    let row = NewRetryRequestRow::from_retry(5, 6, &retry);
    assert_eq!(row.request, 5);
    assert_eq!(row.failed_download_result, 6);
    assert_eq!(row.retry_attempts, 2);
}

#[test]
fn playlist_extraction_builds_items() {
    let artist = RootStructTracksItemsItemTrackArtistsItem {
        external_urls: None,
        href: None,
        id: None,
        name: Some("X".to_string()),
        type_: None,
        uri: None,
    };
    let album = RootStructTracksItemsItemTrackAlbum {
        album_type: None,
        artists: None,
        available_markets: None,
        external_urls: None,
        href: None,
        id: None,
        images: None,
        name: Some("A".to_string()),
        release_date: None,
        release_date_precision: None,
        total_tracks: None,
        type_: None,
        uri: None,
    };
    let track = RootStructTracksItemsItemTrack {
        album: Some(album),
        artists: Some(vec![artist]),
        available_markets: None,
        disc_number: None,
        duration_ms: None,
        episode: None,
        explicit: None,
        external_ids: None,
        external_urls: None,
        href: None,
        id: None,
        is_local: None,
        name: Some("T".to_string()),
        popularity: None,
        track: None,
        track_number: None,
        type_: None,
        uri: None,
    };
    let playlist = RootStruct {
        collaborative: None,
        description: None,
        external_urls: None,
        href: None,
        id: None,
        images: None,
        name: None,
        owner: None,
        public: None,
        snapshot_id: None,
        tracks: Some(RootStructTracks {
            href: None,
            items: Some(vec![RootStructTracksItemsItem {
                added_at: None,
                added_by: None,
                is_local: None,
                track: Some(track),
            }]),
            limit: None,
            offset: None,
            total: None,
        }),
        type_: None,
        uri: None,
    };
    let items = search_items_from_playlist(&playlist);
    assert_eq!(items.len(), 1);
    assert_eq!(items[0].track, "T");
    assert_eq!(items[0].album, "A");
    assert_eq!(items[0].artist, "X");
    let again = SearchItem::new("T".to_string(), "A".to_string(), "X".to_string());
    assert_eq!(items[0].id, again.id);
}

#[test]
fn item_ids_are_deterministic_and_field_sensitive() {
    let a = SearchItem::new("T".to_string(), "A".to_string(), "X".to_string());
    let b = SearchItem::new("T".to_string(), "A".to_string(), "X".to_string());
    assert_eq!(a.id, b.id);
    let c = SearchItem::new("TA".to_string(), "".to_string(), "X".to_string());
    assert_ne!(a.id, c.id);
    let rendered = a.display_string();
    assert_eq!(rendered, "T - X - A");
}

#[test]
fn managers_hold_their_configuration() {
    let p = ParseManager::new("weekly".to_string());
    assert_eq!(p.query_playlist, "weekly");
    let q = QueryManager::new(
        "https://example.invalid/playlist".to_string(),
        Some("id".to_string()),
        Some("opaque-secret".to_string()),
    );
    assert_eq!(q.playlist_url, "https://example.invalid/playlist");
    assert_eq!(q.client_id, "id");
}
