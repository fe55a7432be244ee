use barber_api::error::AppError;
use barber_api::models::{Episode, EpisodeState};
use barber_api::pipeline::{
    AudioCoordinator, DetectionResult, DetectionWorker, DownloadResult, EpisodeWorker, PipelineEvent,
    TranscribeResult, TranscriptionAction, TranscriptionStep,
};
use barber_api::services::or_not_found;
use barber_api::types::{Detection, DetectionJob, ProcessedSegment};

fn episode() -> Episode {
    Episode {
        id: 42,
        podcast_id: 1,
        guid: "g".into(),
        title: "t".into(),
        audio_url: "https://example.com/a.mp3".into(),
        local_file_path: None,
        state: EpisodeState::Pending,
    }
}

#[test]
fn download_success_marks_downloaded_and_starts_transcription() {
    let r = AudioCoordinator::handle_after_download(
        Some(episode()),
        DownloadResult { tracking_id: 42, status: Ok("/dl/a.mp3".into()) },
    );
    let e = r.update.unwrap();
    assert_eq!(e.state, EpisodeState::Downloaded);
    assert_eq!(e.local_file_path.as_deref(), Some("/dl/a.mp3"));
    let job = r.transcribe.unwrap();
    assert_eq!((job.episode_id, job.file_path.as_str()), (42, "/dl/a.mp3"));
}

#[test]
fn download_failure_marks_error_and_stops() {
    let r = AudioCoordinator::handle_after_download(
        Some(episode()),
        DownloadResult { tracking_id: 42, status: Err(AppError::NotFound) },
    );
    assert_eq!(r.update.unwrap().state, EpisodeState::Error);
    assert!(r.transcribe.is_none());
    let none = AudioCoordinator::handle_after_download(
        None,
        DownloadResult { tracking_id: 42, status: Ok("/dl/a.mp3".into()) },
    );
    assert!(none.update.is_none() && none.transcribe.is_none());
}

#[test]
fn transcription_steps() {
    let ok = TranscribeResult::from_outcome(42, Ok(()));
    let load = AudioCoordinator::handle_after_transcription(&ok, TranscriptionStep::Finished);
    assert!(matches!(load, TranscriptionAction::LoadEpisode(42)));
    let store = AudioCoordinator::handle_after_transcription(&ok, TranscriptionStep::Loaded(Ok(Some(episode()))));
    match store {
        TranscriptionAction::StoreEpisode(e) => {
            assert_eq!(e.state, EpisodeState::Transcribed);
            assert_eq!((e.id, e.guid.as_str(), e.local_file_path), (42, "g", None));
        }
        _ => panic!("expected the record to be stored"),
    }
    match AudioCoordinator::handle_after_transcription(&ok, TranscriptionStep::Stored(Ok(()))) {
        TranscriptionAction::QueueDetection(job) => assert_eq!(job.episode_id, 42),
        _ => panic!("expected detection to be queued"),
    }
    for step in [
        TranscriptionStep::Loaded(Ok(None)),
        TranscriptionStep::Loaded(Err(AppError::NotFound)),
        TranscriptionStep::Stored(Err(AppError::NotFound)),
    ] {
        assert!(matches!(AudioCoordinator::handle_after_transcription(&ok, step), TranscriptionAction::Done));
    }
}

#[test]
fn failed_transcription_touches_nothing() {
    let failed = TranscribeResult::from_outcome(42, Err(AppError::SidecarUnavailable));
    for step in [
        TranscriptionStep::Finished,
        TranscriptionStep::Loaded(Ok(Some(episode()))),
        TranscriptionStep::Stored(Ok(())),
    ] {
        assert!(matches!(AudioCoordinator::handle_after_transcription(&failed, step), TranscriptionAction::Done));
    }
}

#[test]
fn events_carry_ids_and_errors() {
    let dl = DownloadResult { tracking_id: 3, status: Ok("p".into()) };
    assert!(matches!(AudioCoordinator::download_event(&dl), PipelineEvent::DownloadComplete(3)));
    let tr = TranscribeResult::from_outcome(4, Err(AppError::NotFound));
    assert!(matches!(
        AudioCoordinator::transcription_event(&tr),
        PipelineEvent::TranscriptionComplete(4, Some(AppError::NotFound))
    ));
    let det = DetectionResult::from_outcome(&DetectionJob { episode_id: 5 }, Ok(()));
    assert!(det.error.is_none());
    assert!(matches!(AudioCoordinator::detection_event(&det), PipelineEvent::DetectionComplete(5, None)));
}

#[test]
fn episode_worker_records_download_outcome() {
    let ok = EpisodeWorker::record_download(
        Some(episode()),
        DownloadResult { tracking_id: 42, status: Ok("/x.mp3".into()) },
    )
    .unwrap();
    assert_eq!(ok.state, EpisodeState::Downloaded);
    assert_eq!(ok.local_file_path.as_deref(), Some("/x.mp3"));
    let err = EpisodeWorker::record_download(
        Some(episode()),
        DownloadResult { tracking_id: 42, status: Err(AppError::NotFound) },
    )
    .unwrap();
    assert_eq!(err.state, EpisodeState::Error);
    assert_eq!(err.local_file_path, None);
}

#[test]
fn stored_detections_are_listed_or_not_found() {
    let segments: Vec<ProcessedSegment> = (0..5u64)
        .map(|i| ProcessedSegment {
            start_time: i * 10_000,
            end_time: (i + 10) * 1000,
            text: String::new(),
            ad_score: 1 + (i as i32) * 20,
            is_ad: i == 0,
        })
        .collect();
    let job = DetectionJob { episode_id: 3 };
    let stored = DetectionWorker::detection_for(&job, segments);
    let detection: Detection = or_not_found(Some(stored)).unwrap();
    assert_eq!(detection.episode_id, 3);
    assert_eq!(detection.segments.len(), 5);
    assert_eq!(detection.segments.iter().filter(|seg| seg.is_ad).count(), 1);
    assert!(matches!(or_not_found::<Detection>(None), Err(AppError::NotFound)));
}
