use vstd::prelude::*;
use crate::error::AppError;
use crate::ids::{hyphenated, uuid_to_string};
use crate::models::{Episode, Podcast};

verus! {

/// Request to download an episode's audio into the podcast's folder.
#[derive(Debug, Clone)]
pub struct DownloadJob {
    pub uuid: u128,
    pub audio_url: String,
    pub folder_name: String,
    pub guid: String,
}

/// Subscriptions, kept in the podcast store `R`.
pub struct PodcastService<R> {
    podcast_repository: R,
}

impl<R> PodcastService<R> {
    pub closed spec fn repository_spec(&self) -> R {
        self.podcast_repository
    }

    pub fn new(podcast_repository: R) -> (s: PodcastService<R>)
        ensures
            s.repository_spec() == podcast_repository,
    {
        PodcastService { podcast_repository }
    }

    /// The store the subscriptions are kept in.
    pub fn repository(&self) -> (r: &R)
        ensures
            *r == self.repository_spec(),
    {
        &self.podcast_repository
    }
}

/// Saved episodes, kept in the episode store `R`, downloaded through the manager `D`.
pub struct EpisodeService<R, D> {
    episode_repository: R,
    download_manager: D,
}

impl<R, D> EpisodeService<R, D> {
    pub closed spec fn repository_spec(&self) -> R {
        self.episode_repository
    }

    pub closed spec fn download_manager_spec(&self) -> D {
        self.download_manager
    }

    pub fn new(episode_repository: R, download_manager: D) -> (s: EpisodeService<R, D>)
        ensures
            s.repository_spec() == episode_repository,
            s.download_manager_spec() == download_manager,
    {
        EpisodeService { episode_repository, download_manager }
    }

    /// The store the episodes are kept in.
    pub fn repository(&self) -> (r: &R)
        ensures
            *r == self.repository_spec(),
    {
        &self.episode_repository
    }

    /// The manager that downloads the episodes' audio.
    pub fn download_manager(&self) -> (d: &D)
        ensures
            *d == self.download_manager_spec(),
    {
        &self.download_manager
    }

    /// The download that fetches a saved episode's audio into its podcast's folder
    /// (named by the podcast's id).
    pub fn download_job(podcast: &Podcast, saved_episode: &Episode) -> (job: DownloadJob)
        ensures
            job.uuid == saved_episode.id,
            job.audio_url == saved_episode.audio_url,
            job.folder_name@ == hyphenated(podcast.id),
            job.guid == saved_episode.guid,
    {
        DownloadJob {
            uuid: saved_episode.id,
            audio_url: saved_episode.audio_url.clone(),
            folder_name: uuid_to_string(podcast.id),
            guid: saved_episode.guid.clone(),
        }
    }

    /// After deleting an episode's record: `NotFound` when there was none; otherwise the
    /// local audio file to remove, if the episode had one.
    pub fn delete_outcome(found: bool, episode: &Episode) -> (r: Result<Option<String>, AppError>)
        ensures
            match r {
                Err(e) => !found && e == AppError::NotFound,
                Ok(path) => found && path == episode.local_file_path,
            },
    {
        if !found {
            return Err(AppError::NotFound);
        }
        match &episode.local_file_path {
            Some(p) => Ok(Some(p.clone())),
            None => Ok(None),
        }
    }
}

/// The job queues of the background workers.
#[derive(Debug, Clone, Copy, PartialEq, Eq, Structural)]
pub enum JobQueue {
    Transcription,
    Detection,
    Editing,
}

pub open spec fn queue_rejected_message(q: JobQueue) -> Seq<char> {
    match q {
        JobQueue::Transcription => "Translate queue is full or offline"@,
        JobQueue::Detection => "Detection queue is full or offline"@,
        JobQueue::Editing => "Edit queue is full or offline"@,
    }
}

/// The error reported when a worker's queue refuses a job.
pub fn queue_rejected(q: JobQueue) -> (e: AppError)
    ensures
        e matches AppError::InternalServerError(m) && m@ == queue_rejected_message(q),
{
    let m = match q {
        JobQueue::Transcription => "Translate queue is full or offline",
        JobQueue::Detection => "Detection queue is full or offline",
        JobQueue::Editing => "Edit queue is full or offline",
    };
    AppError::InternalServerError(String::from_str(m))
}

/// The value, or `NotFound` when there is none.
pub fn or_not_found<T>(value: Option<T>) -> (r: Result<T, AppError>)
    ensures
        match value {
            Some(v) => r == Ok::<T, AppError>(v),
            None => r == Err::<T, AppError>(AppError::NotFound),
        },
{
    match value {
        Some(v) => Ok(v),
        None => Err(AppError::NotFound),
    }
}

/// Episode routes need the podcast to be subscribed; otherwise `NotFound`.
pub fn require_subscription(subscribed: bool) -> (r: Result<(), AppError>)
    ensures
        r is Ok <==> subscribed,
        r matches Err(e) ==> e == AppError::NotFound,
{
    if subscribed {
        Ok(())
    } else {
        Err(AppError::NotFound)
    }
}

/// The record a route needs, or the bad request reported when the database lacks it.
pub fn require_record<T>(value: Option<T>) -> (r: Result<T, AppError>)
    ensures
        match value {
            Some(v) => r == Ok::<T, AppError>(v),
            None => r matches Err(e) && (e matches AppError::BadRequest(m) && m@
                == "Podcast is missing from the database"@),
        },
{
    match value {
        Some(v) => Ok(v),
        None => Err(AppError::BadRequest(String::from_str("Podcast is missing from the database"))),
    }
}

/// The error reported when a subscription cannot be stored.
pub fn subscribe_failure() -> (e: AppError)
    ensures
        e matches AppError::InternalServerError(m) && m@ == "Failure to subscribe"@,
{
    AppError::InternalServerError(String::from_str("Failure to subscribe"))
}

} // verus!
