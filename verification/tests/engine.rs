use prawnloader::catalog::get_item;
use prawnloader::catalog::song_from_track;
use prawnloader::catalog::song_from_video;
use prawnloader::config::Config;
use prawnloader::config::YoutubeFormat;
use prawnloader::downloader::generate_id;
use prawnloader::downloader::DownloadState;
use prawnloader::downloader::DownloadStatus;
use prawnloader::downloader::Downloader;
use prawnloader::downloader::StartError;
use prawnloader::events::Event;
use prawnloader::events::ProgressEvent;
use prawnloader::fanout::chapter_plan;
use prawnloader::fanout::collection_events;
use prawnloader::fanout::merge_contents;
use prawnloader::fanout::per_track_events;
use prawnloader::fanout::terminal_event;
use prawnloader::fanout::Chapter;
use prawnloader::models::route_provider;
use prawnloader::models::worker_action;
use prawnloader::models::DownloadRequest;
use prawnloader::models::Item;
use prawnloader::models::Provider;
use prawnloader::models::RequestId;
use prawnloader::models::Song;
use prawnloader::models::SongAlbum;
use prawnloader::models::WorkerAction;
use prawnloader::resolver::parse_id;
use prawnloader::resolver::ParsedId;

fn rid(value: u128) -> RequestId {
    RequestId { value }
}

fn sample_song(id: &str) -> Song {
    Song {
        id: id.to_string(),
        title: "Thunderstruck".to_string(),
        album: SongAlbum {
            title: "The Razors Edge".to_string(),
            cover_url: "https://covers.example/razor.jpg".to_string(),
        },
        artist: "AC/DC".to_string(),
        release_date: "1990-09-24".to_string(),
    }
}

fn track_request(value: u128) -> DownloadRequest {
    DownloadRequest {
        request_id: rid(value),
        item: Item::DeezerTrack {
            track: sample_song("498467242"),
        },
    }
}

#[test]
fn track_scenario_start_then_finish() {
    // Submitting a track URL resolves to a track reference ...
    let parsed = parse_id("https://provider/track/12345").expect("URL should be valid");
    assert_eq!(parsed, ParsedId::DeezerTrack(12345));

    // ... fetching gives the song with that id ...
    let song = song_from_track(
        12345,
        "Thunderstruck".to_string(),
        "AC/DC".to_string(),
        "The Razors Edge".to_string(),
        "https://covers.example/razor.jpg".to_string(),
        "1990-09-24".to_string(),
        true,
    )
    .expect("a readable track is available");
    assert_eq!(song.id, "12345");
    let item = get_item(&parsed, Some(song), None).expect("the item exists");

    // ... and its submission yields Start followed by Finish.
    let mut pool = Downloader::new(4);
    let request = DownloadRequest {
        request_id: rid(1),
        item,
    };
    let waiting = pool.request_download(request, Config::default());
    assert_eq!(waiting, ProgressEvent::Waiting(rid(1)));

    let (index, start) = pool.start_next().expect("one request waits");
    assert_eq!(start, ProgressEvent::Start(rid(1)));
    assert_eq!(pool.state_at(index), DownloadState::Downloading);

    let finish = pool
        .complete(rid(1), true, String::new())
        .expect("the request was downloading");
    assert_eq!(finish, ProgressEvent::Finish(rid(1)));
    assert_eq!(pool.state_at(index), DownloadState::Finished);
}

#[test]
fn album_scenario_per_track_events() {
    // An album of 10 tracks under the per-track policy where track 3 fails:
    // 9 completions, 1 error carrying index 3, then the overall Finish.
    let mut outcomes: Vec<Result<(), String>> = Vec::new();
    for i in 0..10 {
        if i == 3 {
            outcomes.push(Err("no source".to_string()));
        } else {
            outcomes.push(Ok(()));
        }
    }
    let events = collection_events(rid(9), false, &outcomes);
    assert_eq!(events.len(), 11);

    let completes = events
        .iter()
        .filter(|e| matches!(e, ProgressEvent::AlbumTrackComplete(..)))
        .count();
    let errors: Vec<&ProgressEvent> = events
        .iter()
        .filter(|e| matches!(e, ProgressEvent::AlbumTrackError(..)))
        .collect();
    assert_eq!(completes, 9);
    assert_eq!(errors.len(), 1);
    match errors[0] {
        ProgressEvent::AlbumTrackError(id, index, message) => {
            assert_eq!(*id, rid(9));
            assert_eq!(*index, 3);
            assert_eq!(message, "no source");
        }
        _ => unreachable!(),
    }
    assert_eq!(events.last(), Some(&ProgressEvent::Finish(rid(9))));
}

#[test]
fn per_track_events_count_matches_failures() {
    let outcomes: Vec<Result<(), String>> = vec![
        Err("a".to_string()),
        Ok(()),
        Err("b".to_string()),
        Ok(()),
        Ok(()),
    ];
    let events = per_track_events(rid(2), &outcomes);
    assert_eq!(events.len(), 5);
    for (i, event) in events.iter().enumerate() {
        match (&outcomes[i], event) {
            (Ok(()), ProgressEvent::AlbumTrackComplete(id, index)) => {
                assert_eq!(*id, rid(2));
                assert_eq!(*index, i);
            }
            (Err(m), ProgressEvent::AlbumTrackError(id, index, message)) => {
                assert_eq!(*id, rid(2));
                assert_eq!(*index, i);
                assert_eq!(message, m);
            }
            other => panic!("event does not match outcome: {other:?}"),
        }
    }
}

#[test]
fn merge_policy_fails_fast() {
    let outcomes: Vec<Result<(), String>> = vec![
        Ok(()),
        Err("track 1 failed".to_string()),
        Err("track 2 failed".to_string()),
        Ok(()),
    ];
    let events = collection_events(rid(5), true, &outcomes);
    assert_eq!(
        events,
        vec![ProgressEvent::DownloadError(
            rid(5),
            "track 1 failed".to_string()
        )]
    );

    let all_ok: Vec<Result<(), String>> = vec![Ok(()), Ok(())];
    let events = collection_events(rid(5), true, &all_ok);
    assert_eq!(events, vec![ProgressEvent::Finish(rid(5))]);
}

#[test]
fn merge_contents_releases_payloads_only_on_full_success() {
    let outcomes: Vec<Result<Vec<u8>, String>> =
        vec![Ok(vec![1, 2]), Ok(vec![]), Ok(vec![3])];
    let parts = merge_contents(&outcomes).expect("every member succeeded");
    assert_eq!(parts, vec![vec![1, 2], vec![], vec![3]]);

    let outcomes: Vec<Result<Vec<u8>, String>> = vec![
        Ok(vec![1, 2]),
        Err("fetch failed".to_string()),
        Ok(vec![3]),
    ];
    assert_eq!(merge_contents(&outcomes), Err("fetch failed".to_string()));
}

#[test]
fn terminal_event_maps_outcome() {
    assert_eq!(
        terminal_event(rid(1), &Ok(())),
        ProgressEvent::Finish(rid(1))
    );
    assert_eq!(
        terminal_event(rid(1), &Err("boom".to_string())),
        ProgressEvent::DownloadError(rid(1), "boom".to_string())
    );
}

#[test]
fn pool_never_exceeds_concurrency_limit() {
    let mut pool = Downloader::new(2);
    for i in 0..5 {
        pool.request_download(track_request(i), Config::default());
        assert!(pool.downloading_len() <= 2);
    }
    let events = pool.start_download_queue();
    assert_eq!(events.len(), 2);
    assert!(events
        .iter()
        .all(|e| matches!(e, ProgressEvent::Start(_))));
    assert_eq!(pool.downloading_len(), 2);
    assert_eq!(pool.status(), DownloadStatus::Downloading);

    // The pool is full: nothing more starts.
    assert!(pool.start_next().is_none());
    assert!(matches!(
        pool.start_download(rid(4)),
        Err(StartError::PoolFull)
    ));

    // A completed slot frees capacity for exactly one more start.
    pool.complete(rid(0), true, String::new())
        .expect("was downloading");
    assert_eq!(pool.downloading_len(), 1);
    let (_, start) = pool.start_next().expect("capacity is free again");
    assert_eq!(start, ProgressEvent::Start(rid(2)));
    assert_eq!(pool.downloading_len(), 2);
}

#[test]
fn pool_start_errors_are_precise() {
    let mut pool = Downloader::new(1);
    pool.request_download(track_request(1), Config::default());
    pool.request_download(track_request(2), Config::default());

    assert!(matches!(
        pool.start_download(rid(99)),
        Err(StartError::NotFound)
    ));
    let start = pool.start_download(rid(1)).expect("id 1 waits");
    assert_eq!(start, ProgressEvent::Start(rid(1)));
    assert!(matches!(
        pool.start_download(rid(1)),
        Err(StartError::NotWaiting)
    ));
    assert!(matches!(
        pool.start_download(rid(2)),
        Err(StartError::PoolFull)
    ));
}

#[test]
fn pool_failure_reports_download_error() {
    let mut pool = Downloader::new(4);
    pool.request_download(track_request(1), Config::default());
    pool.start_next().expect("one request waits");
    let event = pool
        .complete(rid(1), false, "connection reset".to_string())
        .expect("was downloading");
    assert_eq!(
        event,
        ProgressEvent::DownloadError(rid(1), "connection reset".to_string())
    );
    // Completion is reported once: the entry is no longer downloading.
    assert_eq!(pool.complete(rid(1), false, String::new()), None);
    assert_eq!(pool.status(), DownloadStatus::Inactive);
}

#[test]
fn pool_stop_cancels_only_inflight_downloads() {
    let mut pool = Downloader::new(4);
    pool.request_download(track_request(1), Config::default());
    pool.request_download(track_request(2), Config::default());

    // A queued-but-not-started request is not individually cancellable.
    assert!(pool.stop(rid(2)).is_err());
    assert!(pool.stop(rid(99)).is_err());

    let (index, _) = pool.start_next().expect("one request waits");
    assert!(pool.stop(rid(1)).is_ok());
    assert_eq!(pool.state_at(index), DownloadState::Stopped);
    assert!(pool.stop(rid(1)).is_err());
}

#[test]
fn pool_queue_can_be_edited() {
    let mut pool = Downloader::new(4);
    pool.request_download(track_request(1), Config::default());
    pool.request_download(track_request(2), Config::default());
    pool.request_download(track_request(3), Config::default());
    assert_eq!(pool.len(), 3);

    pool.remove_from_queue(rid(2));
    assert_eq!(pool.len(), 2);
    assert_eq!(pool.request_at(1).request_id, rid(3));

    pool.remove_from_queue(rid(99));
    assert_eq!(pool.len(), 2);

    pool.clear_queue();
    assert_eq!(pool.len(), 0);
    assert!(pool.start_next().is_none());
}

#[test]
fn events_republish_in_order() {
    let progress = vec![
        ProgressEvent::Waiting(rid(1)),
        ProgressEvent::Start(rid(1)),
        ProgressEvent::AlbumTrackComplete(rid(1), 0),
        ProgressEvent::AlbumTrackError(rid(1), 1, "bad".to_string()),
        ProgressEvent::Finish(rid(1)),
        ProgressEvent::DownloadError(rid(2), "boom".to_string()),
    ];
    let out = prawnloader::events::republish(progress);
    assert_eq!(
        out,
        vec![
            Event::Waiting(rid(1)),
            Event::Start(rid(1)),
            Event::AlbumTrackComplete(rid(1), 0),
            Event::AlbumTrackError(rid(1), 1, "bad".to_string()),
            Event::Finish(rid(1)),
            Event::DownloadError(rid(2), "boom".to_string()),
        ]
    );
    assert_eq!(out[0].name(), "waiting");
    assert_eq!(out[1].name(), "start");
    assert_eq!(out[2].name(), "album_track_complete");
    assert_eq!(out[3].name(), "album_track_error");
    assert_eq!(out[4].name(), "finish");
    assert_eq!(out[5].name(), "download_error");
}

#[test]
fn chapter_plan_covers_whole_item() {
    let chapters = vec![
        Chapter {
            title: "Intro".to_string(),
            start_time: 0,
        },
        Chapter {
            title: "Out/ro".to_string(),
            start_time: 90,
        },
    ];
    let plan = chapter_plan(&chapters, 300, "mp3");
    assert_eq!(
        plan,
        vec![
            ("Intro.mp3".to_string(), 0, 90),
            ("Outro.mp3".to_string(), 90, 300),
        ]
    );

    let empty: Vec<Chapter> = Vec::new();
    assert!(chapter_plan(&empty, 300, "mp3").is_empty());
}

#[test]
fn catalog_builds_songs_and_items() {
    assert!(song_from_track(
        1,
        String::new(),
        String::new(),
        String::new(),
        String::new(),
        String::new(),
        false
    )
    .is_none());

    let song = song_from_video(
        "dQw4w9WgXcQ".to_string(),
        "Never Gonna Give You Up".to_string(),
        "Rick Astley".to_string(),
        None,
        None,
    );
    assert_eq!(song.album.title, "");
    assert_eq!(song.album.cover_url, "");
    assert_eq!(song.release_date, "");

    match get_item(&ParsedId::DeezerTrack(7), None, None) {
        Err(message) => assert_eq!(message, "Invalid track id 7"),
        Ok(_) => panic!("a missing track must be reported"),
    }
    match get_item(&ParsedId::YoutubePlaylist("x".to_string()), None, None) {
        Err(message) => assert_eq!(message, "Invalid playlist id"),
        Ok(_) => panic!("a missing playlist must be reported"),
    }
    match get_item(&ParsedId::DeezerAlbum(3), None, None) {
        Err(message) => assert_eq!(message, "Invalid album id 3"),
        Ok(_) => panic!("a missing album must be reported"),
    }

    let item = get_item(&ParsedId::DeezerTrack(7), Some(sample_song("7")), None)
        .expect("the track exists");
    assert!(matches!(item, Item::DeezerTrack { .. }));
    let item = get_item(
        &ParsedId::YoutubeVideo("v".to_string()),
        Some(sample_song("v")),
        None,
    )
    .expect("the video exists");
    match item {
        Item::YoutubeVideo {
            split_by_chapters, ..
        } => assert!(!split_by_chapters),
        _ => panic!("expected a video item"),
    }
}

#[test]
fn items_route_to_their_provider() {
    let track = Item::DeezerTrack {
        track: sample_song("1"),
    };
    let video = Item::YoutubeVideo {
        video: sample_song("v"),
        split_by_chapters: false,
    };
    assert_eq!(route_provider(&track), Provider::Deezer);
    assert_eq!(route_provider(&video), Provider::Youtube);

    // A worker serves its own provider's items and skips the rest.
    assert!(matches!(
        worker_action(Provider::Deezer, track.clone()),
        WorkerAction::DownloadTrack(_)
    ));
    assert!(matches!(
        worker_action(Provider::Youtube, track),
        WorkerAction::Skip
    ));
    assert!(matches!(
        worker_action(Provider::Youtube, video),
        WorkerAction::DownloadVideo(_, false)
    ));
}

#[test]
fn config_defaults_are_off() {
    let config = Config::default();
    assert!(!config.group_songs_in_folder);
    assert_eq!(config.download_folder, "");
    assert!(!config.deezer_merge_tracks);
    assert!(matches!(config.youtube_format, YoutubeFormat::MP3));
    assert!(!config.youtube_split_chapters);

    assert_eq!(YoutubeFormat::MP3.extension(), "mp3");
    assert_eq!(YoutubeFormat::WEBM.extension(), "webm");
    assert_eq!(YoutubeFormat::WAV.extension(), "wav");
    assert_eq!(YoutubeFormat::OGG.extension(), "ogg");
}

#[test]
fn ids_come_from_a_counter() {
    let mut counter: usize = 1;
    assert_eq!(generate_id(&mut counter), 1);
    assert_eq!(generate_id(&mut counter), 2);
    assert_eq!(counter, 3);
}
