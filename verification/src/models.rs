use vstd::prelude::*;
use crate::ids::{episode_uuid, generate_episode_uuid, generate_podcast_uuid, podcast_uuid};
use crate::types::ProcessedSegment;

verus! {

/// Where an episode is in the processing pipeline.
#[derive(Debug, Clone, Copy, PartialEq, Eq, Structural)]
pub enum EpisodeState {
    Pending,
    Downloaded,
    Transcribed,
    Processing,
    Detected,
    Edited,
    Error,
}

/// An episode the user saved; `local_file_path` is set once its audio is on disk.
#[derive(Debug, Clone)]
pub struct Episode {
    pub id: u128,
    pub podcast_id: u128,
    pub guid: String,
    pub title: String,
    pub audio_url: String,
    pub local_file_path: Option<String>,
    pub state: EpisodeState,
}

/// An episode as a feed lists it.
#[derive(Debug, Clone)]
pub struct EpisodeItem {
    pub guid: String,
    pub title: String,
    pub audio_url: String,
    pub publish_date: Option<String>,
}

impl EpisodeItem {
    /// The episode record for this feed entry, waiting to be downloaded; its id is
    /// derived from the podcast and the GUID.
    pub fn into_pending_episode(self, podcast_id: u128) -> (e: Episode)
        ensures
            e.id == episode_uuid(podcast_id, self.guid@),
            e.podcast_id == podcast_id,
            e.guid == self.guid,
            e.title == self.title,
            e.audio_url == self.audio_url,
            e.local_file_path is None,
            e.state == EpisodeState::Pending,
    {
        let id = generate_episode_uuid(podcast_id, self.guid.as_str());
        Episode {
            id,
            podcast_id,
            guid: self.guid,
            title: self.title,
            audio_url: self.audio_url,
            local_file_path: None,
            state: EpisodeState::Pending,
        }
    }
}

/// An episode together with its detections and the path of its audio.
#[derive(Debug, Clone)]
pub struct EpisodeInfo {
    pub id: u128,
    pub guid: String,
    pub title: String,
    pub status: EpisodeState,
    pub detections: Vec<ProcessedSegment>,
    pub path: String,
}

/// What a feed says about its podcast.
#[derive(Debug, Clone)]
pub struct PodcastMetadata {
    pub title: String,
    pub feed_url: String,
    pub image_url: Option<String>,
    pub description: Option<String>,
    pub author: Option<String>,
}

/// A podcast the user subscribed to; its id is derived from the feed URL.
#[derive(Debug, Clone)]
pub struct Podcast {
    pub id: u128,
    pub title: String,
    pub feed_url: String,
    pub image_url: Option<String>,
    pub description: Option<String>,
    pub author: Option<String>,
}

impl Podcast {
    /// The podcast record for a feed's metadata.
    pub fn from(metadata: PodcastMetadata) -> (p: Podcast)
        ensures
            p.id == podcast_uuid(metadata.feed_url@),
            p.title == metadata.title,
            p.feed_url == metadata.feed_url,
            p.image_url == metadata.image_url,
            p.description == metadata.description,
            p.author == metadata.author,
    {
        let deterministic_id = generate_podcast_uuid(metadata.feed_url.as_str());
        Podcast {
            id: deterministic_id,
            title: metadata.title,
            feed_url: metadata.feed_url,
            image_url: metadata.image_url,
            description: metadata.description,
            author: metadata.author,
        }
    }
}

} // verus!
