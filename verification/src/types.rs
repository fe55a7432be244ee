use vstd::prelude::*;

verus! {

// Times in this crate are whole milliseconds from the start of the episode.
// Transcripts give seconds with at most millisecond precision, and the audio
// editor writes its cut points with three decimals, so milliseconds hold
// every time the pipeline reads or writes exactly.

/// A scored stretch of audio; `is_ad` marks it for removal.
#[derive(Debug, Clone)]
pub struct ProcessedSegment {
    pub start_time: u64,
    pub end_time: u64,
    pub text: String,
    pub ad_score: i32,
    pub is_ad: bool,
}

/// A stretch of audio between two topic boundaries, with its transcript text.
#[derive(Debug, Clone)]
pub struct Segment {
    pub start_time: u64,
    pub end_time: u64,
    pub text: String,
}

/// A run of transcript text that ends on a sentence boundary.
#[derive(Debug, Clone)]
pub struct TranscriptChunk {
    pub text: String,
    pub start_time: u64,
    pub end_time: u64,
}

/// The detections stored for one episode.
#[derive(Debug)]
pub struct Detection {
    pub episode_id: u128,
    pub segments: Vec<ProcessedSegment>,
}

/// Request to run ad detection on an episode's transcript.
#[derive(Debug, Clone)]
pub struct DetectionJob {
    pub episode_id: u128,
}

} // verus!
