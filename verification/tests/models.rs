use barber_api::api::{EpisodesResponse, FeedRequest, ItemsResponse};
use barber_api::config::{download_queue_size, parse_usize, setting_or, DATABASE_URL, DEFAULT_BUFFER_QUEUE};
use barber_api::error::AppError;
use barber_api::ids::{generate_episode_uuid, generate_podcast_uuid, NAMESPACE_URL};
use barber_api::models::{EpisodeItem, EpisodeState, Podcast, PodcastMetadata};
use barber_api::services::{
    queue_rejected, require_record, require_subscription, subscribe_failure, EpisodeService, JobQueue,
    PodcastService,
};
use barber_api::transcribe::{content_type_for, TranscribeCore};

#[test]
fn errors_map_to_status_and_message() {
    assert_eq!(AppError::BadRequest("x".into()).status_code(), 400);
    assert_eq!(AppError::BadRequest("x".into()).public_message(), "Invalid input");
    assert_eq!(AppError::SidecarUnavailable.status_code(), 503);
    assert_eq!(AppError::SidecarUnavailable.public_message(), "The Whisper sidecar is not responding");
    assert_eq!(AppError::InternalServerError("y".into()).status_code(), 500);
    assert_eq!(
        AppError::InternalServerError("y".into()).public_message(),
        "An unexpected internal error occurred"
    );
    assert_eq!(AppError::NotFound.status_code(), 404);
    assert_eq!(AppError::NotFound.public_message(), "Not found");
}

#[test]
fn documented_responses_cover_every_status() {
    let docs = AppError::documented_responses();
    let codes: Vec<u16> = docs.iter().map(|d| d.0).collect();
    assert_eq!(codes, vec![400, 404, 500, 503]);
    assert_eq!(docs[3].1, "Service Unavailable");
    for e in [AppError::BadRequest("a".into()), AppError::SidecarUnavailable, AppError::NotFound] {
        assert!(codes.contains(&e.status_code()));
    }
}

#[test]
fn network_failures_are_internal_errors() {
    match AppError::network_failure("connection refused") {
        AppError::InternalServerError(m) => assert_eq!(m, "Network request failed: connection refused"),
        _ => panic!("expected an internal error"),
    }
}

#[test]
fn download_folder_is_the_hyphenated_podcast_id() {
    let podcast = |id: u128| Podcast {
        id,
        title: "P".into(),
        feed_url: "https://example.com/feed.xml".into(),
        image_url: None,
        description: None,
        author: None,
    };
    let item = EpisodeItem {
        guid: "g1".into(),
        title: "T".into(),
        audio_url: "https://example.com/a.mp3".into(),
        publish_date: None,
    };
    let episode = item.into_pending_episode(NAMESPACE_URL);
    let job = EpisodeService::<(), ()>::download_job(&podcast(NAMESPACE_URL), &episode);
    assert_eq!(job.folder_name, "6ba7b811-9dad-11d1-80b4-00c04fd430c8");
    assert_eq!(job.uuid, episode.id);
    assert_eq!(job.audio_url, "https://example.com/a.mp3");
    assert_eq!(job.guid, "g1");
    let other = EpisodeService::<(), ()>::download_job(&podcast(0xa1a2a3a4b1b2c1c2d1d2d3d4d5d6d7d8), &episode);
    assert_eq!(other.folder_name, "a1a2a3a4-b1b2-c1c2-d1d2-d3d4d5d6d7d8");
}

#[test]
fn ids_are_derived_deterministically() {
    let id = generate_podcast_uuid("https://example.com/feed.xml");
    assert_eq!(id, generate_podcast_uuid("https://example.com/feed.xml"));
    assert_ne!(id, generate_podcast_uuid("https://example.com/other.xml"));
    assert_eq!((id >> 76) & 0xf, 5);
    assert_ne!(generate_episode_uuid(id, "g1"), generate_episode_uuid(id, "g2"));
}

#[test]
fn pending_episode_and_podcast_records() {
    let item = EpisodeItem {
        guid: "g1".into(),
        title: "T".into(),
        audio_url: "https://example.com/a.mp3".into(),
        publish_date: None,
    };
    let e = item.into_pending_episode(9);
    assert_eq!(e.id, generate_episode_uuid(9, "g1"));
    assert_eq!(e.podcast_id, 9);
    assert_eq!(e.state, EpisodeState::Pending);
    assert_eq!(e.local_file_path, None);
    let p = Podcast::from(PodcastMetadata {
        title: "Show".into(),
        feed_url: "https://example.com/feed.xml".into(),
        image_url: None,
        description: Some("d".into()),
        author: None,
    });
    assert_eq!(p.id, generate_podcast_uuid("https://example.com/feed.xml"));
    assert_eq!(p.title, "Show");
    assert_eq!(p.description.as_deref(), Some("d"));
}

#[test]
fn services_hold_their_stores_and_build_downloads() {
    let podcasts = PodcastService::new("podcast-store");
    assert_eq!(*podcasts.repository(), "podcast-store");
    let episodes = EpisodeService::new("episode-store", 3u8);
    assert_eq!(*episodes.repository(), "episode-store");
    assert_eq!(*episodes.download_manager(), 3u8);
    let podcast = Podcast {
        id: NAMESPACE_URL,
        title: "Show".into(),
        feed_url: "u".into(),
        image_url: None,
        description: None,
        author: None,
    };
    let e = EpisodeItem { guid: "g".into(), title: "t".into(), audio_url: "a".into(), publish_date: None }
        .into_pending_episode(podcast.id);
    let job = EpisodeService::<(), ()>::download_job(&podcast, &e);
    assert_eq!(job.uuid, e.id);
    assert_eq!(job.folder_name, "6ba7b811-9dad-11d1-80b4-00c04fd430c8");
    assert_eq!(job.audio_url, "a");
    assert!(matches!(EpisodeService::<(), ()>::delete_outcome(false, &e), Err(AppError::NotFound)));
    assert_eq!(EpisodeService::<(), ()>::delete_outcome(true, &e).unwrap(), None);
}

#[test]
fn route_guards() {
    assert!(require_subscription(true).is_ok());
    assert!(matches!(require_subscription(false), Err(AppError::NotFound)));
    match require_record::<u8>(None) {
        Err(AppError::BadRequest(m)) => assert_eq!(m, "Podcast is missing from the database"),
        _ => panic!("expected a bad request"),
    }
    assert_eq!(require_record(Some(1u8)).unwrap(), 1);
    match subscribe_failure() {
        AppError::InternalServerError(m) => assert_eq!(m, "Failure to subscribe"),
        _ => panic!("expected an internal error"),
    }
    match queue_rejected(JobQueue::Detection) {
        AppError::InternalServerError(m) => assert_eq!(m, "Detection queue is full or offline"),
        _ => panic!("expected an internal error"),
    }
}

#[test]
fn responses_count_their_items() {
    let r = EpisodesResponse::from_items(vec![]);
    assert_eq!(r.total, 0);
    let r = ItemsResponse::from_items(vec![barber_api::feed::FeedItem {
        title: None,
        link: None,
        enclosure_url: None,
        guid: None,
        pub_date: None,
    }]);
    assert_eq!(r.total, 1);
    assert_eq!(FeedRequest { feed_url: "u".into(), size: None }.page_size(), 20);
    assert_eq!(FeedRequest { feed_url: "u".into(), size: Some(3) }.page_size(), 3);
}

#[test]
fn settings_and_queue_size() {
    assert_eq!(parse_usize("42"), Some(42));
    assert_eq!(parse_usize("+7"), Some(7));
    assert_eq!(parse_usize(""), None);
    assert_eq!(parse_usize("+"), None);
    assert_eq!(parse_usize("4x"), None);
    assert_eq!(parse_usize("-1"), None);
    assert_eq!(parse_usize("99999999999999999999999"), None);
    assert_eq!(parse_usize("007"), Some(7));
    assert_eq!(download_queue_size(Some("12")), 12);
    assert_eq!(download_queue_size(Some("many")), DEFAULT_BUFFER_QUEUE);
    assert_eq!(download_queue_size(None), 100);
    assert_eq!(setting_or(None, DATABASE_URL), "sqlite://podcast.db");
    assert_eq!(setting_or(Some("x".into()), DATABASE_URL), "x");
}

#[test]
fn content_type_is_sniffed() {
    assert_eq!(content_type_for(b"ID3\x03\x00\x00\x00\x00\x00\x00"), "audio/mpeg");
    assert_eq!(content_type_for(b"fake audio data"), "application/octet-stream");
}

#[test]
fn whisper_endpoints() {
    let core = TranscribeCore::new("http://w:8000/v1".into());
    assert_eq!(core.models_endpoint(), "http://w:8000/v1/models");
    assert_eq!(core.transcriptions_endpoint(), "http://w:8000/v1/audio/transcriptions");
    let fields = TranscribeCore::transcription_fields();
    assert_eq!(fields[0], ("model".to_string(), "base".to_string()));
    assert_eq!(fields[1], ("response_format".to_string(), "verbose_json".to_string()));
}
