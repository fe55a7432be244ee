use vstd::prelude::*;
use crate::error::AppError;
use crate::models::{Episode, EpisodeState};
use crate::types::{Detection, DetectionJob, ProcessedSegment};

verus! {

/// Outcome of an audio download: the path the file was saved to, or why it failed.
#[derive(Debug)]
pub struct DownloadResult {
    pub tracking_id: u128,
    pub status: Result<String, AppError>,
}

/// Request to transcribe an episode's downloaded audio.
#[derive(Debug, Clone)]
pub struct TranscribeJob {
    pub episode_id: u128,
    pub file_path: String,
}

/// Outcome of a transcription; `error` is set when it failed.
#[derive(Debug)]
pub struct TranscribeResult {
    pub episode_id: u128,
    pub error: Option<AppError>,
}

/// Outcome of an ad detection; `error` is set when it failed.
#[derive(Debug)]
pub struct DetectionResult {
    pub episode_id: u128,
    pub error: Option<AppError>,
}

/// Progress the coordinator reports to an observer.
#[derive(Debug, Clone)]
pub enum PipelineEvent {
    DownloadComplete(u128),
    TranscriptionComplete(u128, Option<AppError>),
    DetectionComplete(u128, Option<AppError>),
}

/// `e` with only its state (and, when given, its local file) changed.
pub open spec fn with_progress(e: Episode, state: EpisodeState, path: Option<String>) -> Episode {
    Episode { state, local_file_path: if path is Some { path } else { e.local_file_path }, ..e }
}

/// What the coordinator does after a download: the episode record to store, and the
/// transcription to start.
pub struct AfterDownload {
    pub update: Option<Episode>,
    pub transcribe: Option<TranscribeJob>,
}

/// Where the handling of a finished transcription stands: just finished, the episode
/// looked up (its record, or `None` when it is not stored), or the updated record stored.
#[derive(Debug)]
pub enum TranscriptionStep {
    Finished,
    Loaded(Result<Option<Episode>, AppError>),
    Stored(Result<(), AppError>),
}

/// What the coordinator does next for a finished transcription.
#[derive(Debug)]
pub enum TranscriptionAction {
    LoadEpisode(u128),
    StoreEpisode(Episode),
    QueueDetection(DetectionJob),
    Done,
}

/// The coordinator's decision after a transcription, at each step.
pub open spec fn after_transcription(tr: TranscribeResult, step: TranscriptionStep) -> TranscriptionAction {
    if tr.error is Some {
        TranscriptionAction::Done
    } else {
        match step {
            TranscriptionStep::Finished => TranscriptionAction::LoadEpisode(tr.episode_id),
            TranscriptionStep::Loaded(loaded) => match loaded {
                Ok(Some(e)) => TranscriptionAction::StoreEpisode(
                    with_progress(e, EpisodeState::Transcribed, None),
                ),
                _ => TranscriptionAction::Done,
            },
            TranscriptionStep::Stored(stored) => match stored {
                Ok(_) => TranscriptionAction::QueueDetection(DetectionJob { episode_id: tr.episode_id }),
                Err(_) => TranscriptionAction::Done,
            },
        }
    }
}

/// Detection is queued only for a successful transcription whose transcribed record was
/// stored; a failed transcription touches nothing, whatever step it is at.
pub proof fn lemma_detection_only_after_store(tr: TranscribeResult, step: TranscriptionStep)
    ensures
        after_transcription(tr, step) is QueueDetection ==> tr.error is None && step matches TranscriptionStep::Stored(Ok(_)),
        tr.error is Some ==> after_transcription(tr, step) is Done,
        step matches TranscriptionStep::Loaded(Ok(None)) ==> after_transcription(tr, step) is Done,
        step matches TranscriptionStep::Loaded(Err(_)) ==> after_transcription(tr, step) is Done,
{
}

impl TranscribeResult {
    /// The result reported for a transcription job with this outcome.
    pub fn from_outcome(episode_id: u128, outcome: Result<(), AppError>) -> (r: TranscribeResult)
        ensures
            r.episode_id == episode_id,
            r.error == (match outcome {
                Ok(_) => None,
                Err(e) => Some(e),
            }),
    {
        TranscribeResult {
            episode_id,
            error: match outcome {
                Ok(_) => None,
                Err(e) => Some(e),
            },
        }
    }
}

impl DetectionResult {
    /// The result reported for a detection job with this outcome.
    pub fn from_outcome(job: &DetectionJob, outcome: Result<(), AppError>) -> (r: DetectionResult)
        ensures
            r.episode_id == job.episode_id,
            r.error == (match outcome {
                Ok(_) => None,
                Err(e) => Some(e),
            }),
    {
        DetectionResult {
            episode_id: job.episode_id,
            error: match outcome {
                Ok(_) => None,
                Err(e) => Some(e),
            },
        }
    }
}

/// Coordinator decisions between the stages of the pipeline. The coordinator itself
/// receives the results and performs the storage and queue operations.
pub struct AudioCoordinator;

impl AudioCoordinator {
    /// After a download of an episode whose stored record is `stored` (`None` when it is
    /// not found): nothing without a record; on failure the record goes to `Error`; on
    /// success it goes to `Downloaded` with the file's path, and the file is sent to be
    /// transcribed.
    pub fn handle_after_download(stored: Option<Episode>, dl_result: DownloadResult) -> (r: AfterDownload)
        ensures
            match stored {
                None => r.update is None && r.transcribe is None,
                Some(e) => match dl_result.status {
                    Err(_) => r.update == Some(with_progress(e, EpisodeState::Error, None))
                        && r.transcribe is None,
                    Ok(path) => r.update == Some(
                        with_progress(e, EpisodeState::Downloaded, Some(path)),
                    ) && r.transcribe == Some(
                        TranscribeJob { episode_id: dl_result.tracking_id, file_path: path },
                    ),
                },
            },
    {
        let mut episode = match stored {
            None => {
                return AfterDownload { update: None, transcribe: None };
            },
            Some(e) => e,
        };
        match dl_result.status {
            Err(_) => {
                episode.state = EpisodeState::Error;
                AfterDownload { update: Some(episode), transcribe: None }
            },
            Ok(path) => {
                episode.state = EpisodeState::Downloaded;
                episode.local_file_path = Some(path.clone());
                let job = TranscribeJob { episode_id: dl_result.tracking_id, file_path: path };
                AfterDownload { update: Some(episode), transcribe: Some(job) }
            },
        }
    }

    /// The coordinator's next action after a transcription, given what the previous
    /// action gave back. A failed transcription does nothing. A successful one loads the
    /// episode; a loaded record is stored marked `Transcribed`, with nothing else changed;
    /// once that store succeeded, detection is queued. A missing record, a failed load and
    /// a failed store end the handling.
    pub fn handle_after_transcription(tr_result: &TranscribeResult, step: TranscriptionStep) -> (a:
        TranscriptionAction)
        ensures
            a == after_transcription(*tr_result, step),
    {
        if tr_result.error.is_some() {
            return TranscriptionAction::Done;
        }
        match step {
            TranscriptionStep::Finished => TranscriptionAction::LoadEpisode(tr_result.episode_id),
            TranscriptionStep::Loaded(Ok(Some(mut episode))) => {
                episode.state = EpisodeState::Transcribed;
                TranscriptionAction::StoreEpisode(episode)
            },
            TranscriptionStep::Loaded(_) => TranscriptionAction::Done,
            TranscriptionStep::Stored(Ok(())) => TranscriptionAction::QueueDetection(
                DetectionJob { episode_id: tr_result.episode_id },
            ),
            TranscriptionStep::Stored(Err(_)) => TranscriptionAction::Done,
        }
    }

    /// The event that reports a finished download.
    pub fn download_event(dl_result: &DownloadResult) -> (ev: PipelineEvent)
        ensures
            ev == PipelineEvent::DownloadComplete(dl_result.tracking_id),
    {
        PipelineEvent::DownloadComplete(dl_result.tracking_id)
    }

    /// The event that reports a finished transcription, with its error if any.
    pub fn transcription_event(tr_result: &TranscribeResult) -> (ev: PipelineEvent)
        ensures
            ev == PipelineEvent::TranscriptionComplete(tr_result.episode_id, tr_result.error),
    {
        let err = match &tr_result.error {
            Some(e) => Some(e.clone()),
            None => None,
        };
        PipelineEvent::TranscriptionComplete(tr_result.episode_id, err)
    }

    /// The event that reports a finished detection, with its error if any.
    pub fn detection_event(detection_result: &DetectionResult) -> (ev: PipelineEvent)
        ensures
            ev == PipelineEvent::DetectionComplete(detection_result.episode_id, detection_result.error),
    {
        let err = match &detection_result.error {
            Some(e) => Some(e.clone()),
            None => None,
        };
        PipelineEvent::DetectionComplete(detection_result.episode_id, err)
    }
}

/// Runs ad detection on stored transcripts.
pub struct DetectionWorker;

impl DetectionWorker {
    /// The stored transcript; an internal error when the episode has none.
    pub fn require_transcript<T>(stored: Option<T>) -> (r: Result<T, AppError>)
        ensures
            match stored {
                Some(t) => r == Ok::<T, AppError>(t),
                None => r matches Err(e) && (e matches AppError::InternalServerError(m) && m@
                    == "Transcript not found for episode"@),
            },
    {
        match stored {
            Some(t) => Ok(t),
            None => Err(AppError::InternalServerError(String::from_str("Transcript not found for episode"))),
        }
    }

    /// The detection record stored for a job.
    pub fn detection_for(job: &DetectionJob, segments: Vec<ProcessedSegment>) -> (d: Detection)
        ensures
            d.episode_id == job.episode_id,
            d.segments == segments,
    {
        Detection { episode_id: job.episode_id, segments }
    }
}

/// Records the outcome of downloads on the stored episodes.
pub struct EpisodeWorker;

impl EpisodeWorker {
    /// The record to store for a download outcome: `Downloaded` with its path, or `Error`;
    /// nothing when the episode is not stored.
    pub fn record_download(stored: Option<Episode>, result: DownloadResult) -> (update: Option<Episode>)
        ensures
            match stored {
                None => update is None,
                Some(e) => match result.status {
                    Ok(path) => update == Some(with_progress(e, EpisodeState::Downloaded, Some(path))),
                    Err(_) => update == Some(with_progress(e, EpisodeState::Error, None)),
                },
            },
    {
        match stored {
            None => None,
            Some(mut episode) => {
                match result.status {
                    Ok(path) => {
                        episode.state = EpisodeState::Downloaded;
                        episode.local_file_path = Some(path);
                    },
                    Err(_) => {
                        episode.state = EpisodeState::Error;
                    },
                }
                Some(episode)
            },
        }
    }
}

} // verus!
