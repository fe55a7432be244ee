use vstd::prelude::*;
use crate::scoring::{ManualClassifier, ScoreConfig, classified, lowercase_of, score_of};
use crate::segmenter::{boundary_times, create_segments, join_spaced, segment_start, texts_between};
use crate::types::{ProcessedSegment, Segment, TranscriptChunk};

verus! {

/// Settings of ad detection: how many chunks each side of a candidate boundary is
/// compared over, and the scoring rules.
#[derive(Debug)]
pub struct DetectionConfig {
    pub boundary_size: usize,
    pub score: ScoreConfig,
}

impl Default for DetectionConfig {
    fn default() -> (c: DetectionConfig)
        ensures
            c.boundary_size == 5,
            c.score.is_default(),
    {
        DetectionConfig { boundary_size: 5, score: ScoreConfig::default() }
    }
}

/// Ad detection: segments between topic boundaries, each scored by the manual classifier.
pub struct DetectionCore {
    pub boundary_size: usize,
    pub manual_classifier: ManualClassifier,
}

/// The `i`-th segment that the boundaries cut out of the chunks.
pub open spec fn segment_at(chunks: Seq<TranscriptChunk>, boundaries: Seq<u64>, i: int) -> (u64, u64, Seq<char>) {
    let cuts = boundary_times(chunks, boundaries);
    let start = segment_start(cuts, i);
    (start, cuts[i], join_spaced(texts_between(chunks, start, cuts[i])))
}

impl DetectionCore {
    pub fn new(config: DetectionConfig) -> (core: DetectionCore)
        ensures
            core.boundary_size == config.boundary_size,
            core.manual_classifier.config == config.score,
    {
        let DetectionConfig { boundary_size, score } = config;
        DetectionCore { boundary_size, manual_classifier: ManualClassifier::new(score) }
    }

    /// Cuts the transcript at the boundaries and scores every segment.
    pub fn detect_ads(&self, chunks: &[TranscriptChunk], boundaries: &[u64]) -> (r: Vec<ProcessedSegment>)
        ensures
            r@.len() == boundaries@.len() + 1,
            forall|i: int|
                0 <= i < r@.len() ==> {
                    let (start, end, text) = segment_at(chunks@, boundaries@, i);
                    let score = score_of(
                        self.manual_classifier.config,
                        lowercase_of(text),
                        end - start,
                    );
                    &&& #[trigger] r@[i].start_time == start
                    &&& r@[i].end_time == end
                    &&& r@[i].text@ == text
                    &&& r@[i].ad_score == score
                    &&& r@[i].is_ad == (score >= self.manual_classifier.config.ad_threshold)
                },
    {
        let segments = create_segments(chunks, boundaries);
        let ghost segs = segments@;
        let mut r: Vec<ProcessedSegment> = Vec::new();
        let mut rest = segments;
        let n = rest.len();
        let mut i: usize = 0;
        while i < n
            invariant
                n == segs.len(),
                rest@ == segs.skip(i as int),
                i <= n,
                r@.len() == i,
                forall|k: int|
                    0 <= k < i ==> #[trigger] r@[k] == classified(
                        segs[k],
                        self.manual_classifier.score_for(segs[k]),
                        self.manual_classifier.config.ad_threshold,
                    ),
            decreases n - i,
        {
            let seg = rest.remove(0);
            proof {
                assert(seg == segs[i as int]);
                assert(rest@ =~= segs.skip(i + 1));
            }
            let p = self.manual_classifier.classify(seg);
            r.push(p);
            i = i + 1;
        }
        r
    }
}

} // verus!
