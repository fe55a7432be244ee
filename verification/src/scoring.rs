use vstd::prelude::*;
use crate::text::chars_of;
use crate::types::{ProcessedSegment, Segment};

verus! {

/// What Rust's `str::to_lowercase` returns for a text (Unicode lowercase mapping).
pub uninterp spec fn lowercase_of(s: Seq<char>) -> Seq<char>;

/// Calls `str::to_lowercase`; the result is named by `lowercase_of`.
#[verifier::external_body]
fn to_lowercase(s: &str) -> (r: String)
    ensures
        r@ == lowercase_of(s@),
{
    s.to_lowercase()
}

pub open spec fn occurs_at(h: Seq<char>, p: Seq<char>, i: int) -> bool {
    0 <= i && i + p.len() <= h.len() && h.subrange(i, i + p.len()) == p
}

/// Number of non-overlapping occurrences of `p` in `h` at or after `i`, found left to right.
pub open spec fn count_from(h: Seq<char>, p: Seq<char>, i: int) -> nat
    decreases h.len() - i,
{
    if p.len() == 0 || i < 0 || i + p.len() > h.len() {
        0
    } else if occurs_at(h, p, i) {
        1 + count_from(h, p, i + p.len())
    } else {
        count_from(h, p, i + 1)
    }
}

/// Number of non-overlapping occurrences of a non-empty `p` in `h`.
pub open spec fn count_occurrences(h: Seq<char>, p: Seq<char>) -> nat {
    count_from(h, p, 0)
}

pub open spec fn starts_with(h: Seq<char>, p: Seq<char>) -> bool {
    p.len() <= h.len() && h.take(p.len() as int) == p
}

pub open spec fn contains(h: Seq<char>, p: Seq<char>) -> bool {
    exists|i: int| occurs_at(h, p, i)
}

fn occurs_at_exec(h: &Vec<char>, p: &Vec<char>, i: usize) -> (b: bool)
    requires
        i + p@.len() <= h@.len(),
    ensures
        b == occurs_at(h@, p@, i as int),
{
    let n = p.len();
    let hn = h.len();
    for j in 0..n
        invariant
            n == p@.len(),
            hn == h@.len(),
            i + n <= h@.len(),
            forall|k: int| 0 <= k < j ==> h@[i + k] == p@[k],
    {
        if h[i + j] != p[j] {
            proof {
                assert(h@.subrange(i as int, i + n)[j as int] != p@[j as int]);
            }
            return false;
        }
    }
    proof {
        assert(h@.subrange(i as int, i + n) =~= p@);
    }
    true
}

/// Counts the non-overlapping occurrences of a non-empty pattern `p` in `h`, found left
/// to right, as `str::matches(..).count()` counts them for such a pattern.
pub fn count_matches(h: &Vec<char>, p: &Vec<char>) -> (c: usize)
    requires
        p@.len() > 0,
    ensures
        c == count_occurrences(h@, p@),
{
    let mut i: usize = 0;
    let mut c: usize = 0;
    let n = h.len();
    let m = p.len();
    while i <= n && m <= n - i
        invariant
            n == h@.len(),
            m == p@.len(),
            m > 0,
            i <= n + 1,
            c <= i,
            c + count_from(h@, p@, i as int) == count_from(h@, p@, 0),
        decreases n + 1 - i,
    {
        if occurs_at_exec(h, p, i) {
            c = c + 1;
            i = i + m;
        } else {
            i = i + 1;
        }
    }
    c
}

/// Whether `h` begins with `p`.
pub fn starts_with_exec(h: &Vec<char>, p: &Vec<char>) -> (b: bool)
    ensures
        b == starts_with(h@, p@),
{
    if p.len() > h.len() {
        return false;
    }
    let r = occurs_at_exec(h, p, 0);
    proof {
        assert(h@.subrange(0, p@.len() as int) =~= h@.take(p@.len() as int));
    }
    r
}

/// Whether `p` occurs anywhere in `h`.
pub fn contains_exec(h: &Vec<char>, p: &Vec<char>) -> (b: bool)
    ensures
        b == contains(h@, p@),
{
    let n = h.len();
    let m = p.len();
    if m > n {
        return false;
    }
    if m == 0 {
        proof {
            assert(h@.subrange(0, 0) =~= p@);
            assert(occurs_at(h@, p@, 0));
        }
        return true;
    }
    let mut i: usize = 0;
    while i <= n - m
        invariant
            n == h@.len(),
            m == p@.len(),
            0 < m <= n,
            forall|k: int| 0 <= k < i ==> !occurs_at(h@, p@, k),
        decreases n - m + 1 - i,
    {
        if occurs_at_exec(h, p, i) {
            return true;
        }
        i = i + 1;
    }
    proof {
        assert forall|k: int| !occurs_at(h@, p@, k) by {
            if 0 <= k && k + m <= n {
                assert(k < i);
            }
        }
    }
    false
}

} // verus!

verus! {

/// Weights and thresholds of the manual ad scorer. Durations are in milliseconds.
/// Scores are `i32`; their additions, subtractions and products wrap on overflow.
#[derive(Debug)]
pub struct ScoreConfig {
    pub keywords: Vec<String>,
    pub outro_phrases: Vec<String>,
    pub keyword_weight: i32,
    pub preferred_min_duration_ms: u64,
    pub preferred_max_duration_ms: u64,
    pub preferred_duration_bonus: i32,
    pub long_segment_threshold_ms: u64,
    pub long_segment_penalty: i32,
    pub short_segment_threshold_ms: u64,
    pub short_segment_penalty: i32,
    pub outro_penalty: i32,
    pub ad_threshold: i32,
}

pub open spec fn views_of(v: Seq<String>) -> Seq<Seq<char>> {
    v.map_values(|s: String| s@)
}

/// Ad phrases the scorer looks for by default.
pub open spec fn default_ad_keywords() -> Seq<Seq<char>> {
    seq![
        "sponsor"@,
        "sponsored"@,
        "promo"@,
        "promo code"@,
        "use code"@,
        "discount"@,
        "coupon"@,
        "free trial"@,
        "offer"@,
        "brought to you by"@,
        "visit"@,
        "shipping"@,
        "subscription"@,
        "download the app"@,
    ]
}

/// Sign-off phrases that mark the end of the show rather than an ad.
pub open spec fn default_outro_phrases() -> Seq<Seq<char>> {
    seq![
        "thanks for listening"@,
        "thank you for listening"@,
        "see you next time"@,
        "see you next week"@,
        "until next time"@,
    ]
}

fn strings_of(items: &[&str]) -> (r: Vec<String>)
    ensures
        r@.len() == items@.len(),
        forall|i: int| 0 <= i < items@.len() ==> #[trigger] r@[i]@ == items@[i]@,
{
    let mut r: Vec<String> = Vec::new();
    for i in 0..items.len()
        invariant
            r@.len() == i,
            forall|j: int| 0 <= j < i ==> #[trigger] r@[j]@ == items@[j]@,
    {
        r.push(String::from_str(items[i]));
    }
    r
}

impl ScoreConfig {
    pub open spec fn is_default(self) -> bool {
        &&& views_of(self.keywords@) == default_ad_keywords()
        &&& views_of(self.outro_phrases@) == default_outro_phrases()
        &&& self.keyword_weight == 15
        &&& self.preferred_min_duration_ms == 30_000
        &&& self.preferred_max_duration_ms == 120_000
        &&& self.preferred_duration_bonus == 15
        &&& self.long_segment_threshold_ms == 180_000
        &&& self.long_segment_penalty == 100
        &&& self.short_segment_threshold_ms == 15_000
        &&& self.short_segment_penalty == 20
        &&& self.outro_penalty == 25
        &&& self.ad_threshold == 25
    }
}

impl Default for ScoreConfig {
    fn default() -> (c: ScoreConfig)
        ensures
            c.is_default(),
    {
        let kw = [
            "sponsor",
            "sponsored",
            "promo",
            "promo code",
            "use code",
            "discount",
            "coupon",
            "free trial",
            "offer",
            "brought to you by",
            "visit",
            "shipping",
            "subscription",
            "download the app",
        ];
        let outro = [
            "thanks for listening",
            "thank you for listening",
            "see you next time",
            "see you next week",
            "until next time",
        ];
        let keywords = strings_of(&kw);
        let outro_phrases = strings_of(&outro);
        proof {
            assert(views_of(keywords@) =~= default_ad_keywords());
            assert(views_of(outro_phrases@) =~= default_outro_phrases());
        }
        ScoreConfig {
            keywords,
            outro_phrases,
            keyword_weight: 15,
            preferred_min_duration_ms: 30_000,
            preferred_max_duration_ms: 120_000,
            preferred_duration_bonus: 15,
            long_segment_threshold_ms: 180_000,
            long_segment_penalty: 100,
            short_segment_threshold_ms: 15_000,
            short_segment_penalty: 20,
            outro_penalty: 25,
            ad_threshold: 25,
        }
    }
}

/// Hits of one keyword: its occurrences between spaces, plus one if the text starts with it.
pub open spec fn hits_for(lower: Seq<char>, k: Seq<char>) -> i32 {
    (count_occurrences(lower, seq![' '] + k + seq![' ']) as i32).wrapping_add(
        if starts_with(lower, k) {
            1i32
        } else {
            0i32
        },
    )
}

/// (score, hits) after the keywords in `kws`, in order.
pub open spec fn keyword_tally(kws: Seq<Seq<char>>, weight: i32, lower: Seq<char>) -> (i32, i32)
    decreases kws.len(),
{
    if kws.len() == 0 {
        (0, 0)
    } else {
        let prev = keyword_tally(kws.drop_last(), weight, lower);
        let t = hits_for(lower, kws.last());
        (prev.0.wrapping_add(t.wrapping_mul(weight)), prev.1.wrapping_add(t))
    }
}

proof fn lemma_wrapping_add_congruent(x: i32, y: i32)
    ensures
        (x.wrapping_add(y) - (x + y)) % 0x1_0000_0000 == 0,
{
}

proof fn lemma_wrapping_mul_congruent(x: i32, y: i32)
    ensures
        (x.wrapping_mul(y) - x * y) % 0x1_0000_0000 == 0,
{
    let z = x * y;
    let q = z / 0x1_0000_0000;
    let r = z % 0x1_0000_0000;
    assert(z == 0x1_0000_0000 * q + r);
}

proof fn lemma_multiple_times(w: int, d: int)
    requires
        d == 0 || d == 0x1_0000_0000 || d == -0x1_0000_0000,
    ensures
        (w * d) % 0x1_0000_0000 == 0,
{
    if d == 0x1_0000_0000 {
        vstd::arithmetic::div_mod::lemma_mod_multiples_basic(w, 0x1_0000_0000);
    } else if d == -0x1_0000_0000 {
        vstd::arithmetic::div_mod::lemma_mod_multiples_basic(-w, 0x1_0000_0000);
        assert(w * d == (-w) * 0x1_0000_0000) by (nonlinear_arith)
            requires
                d == -0x1_0000_0000,
        ;
    } else {
        assert(w * d == 0) by (nonlinear_arith)
            requires
                d == 0,
        ;
    }
}

proof fn lemma_tally_congruent(kws: Seq<Seq<char>>, weight: i32, lower: Seq<char>)
    ensures
        (keyword_tally(kws, weight, lower).0 - weight * keyword_tally(kws, weight, lower).1)
            % 0x1_0000_0000 == 0,
    decreases kws.len(),
{
    if kws.len() > 0 {
        lemma_tally_congruent(kws.drop_last(), weight, lower);
        let prev = keyword_tally(kws.drop_last(), weight, lower);
        let t = hits_for(lower, kws.last());
        let wm = t.wrapping_mul(weight);
        let s0 = prev.0.wrapping_add(wm);
        let s1 = prev.1.wrapping_add(t);
        lemma_wrapping_add_congruent(prev.0, wm);
        lemma_wrapping_mul_congruent(t, weight);
        let d = s1 - (prev.1 + t);
        assert(d == 0 || d == 0x1_0000_0000 || d == -0x1_0000_0000);
        lemma_multiple_times(weight as int, d);
        let a = s0 - (prev.0 + wm);
        let b = wm - t * weight;
        let c = prev.0 - weight * prev.1;
        let e = weight * d;
        assert(s0 - weight * s1 == a + b + c - e) by (nonlinear_arith)
            requires
                a == s0 - (prev.0 + wm),
                b == wm - t * weight,
                c == prev.0 - weight * prev.1,
                e == weight * d,
                d == s1 - (prev.1 + t),
        ;
        assert((a + b + c - e) % 0x1_0000_0000 == 0);
        assert(keyword_tally(kws, weight, lower) == (s0, s1));
    } else {
        assert(weight * 0 == 0) by (nonlinear_arith);
    }
}

/// The keyword part of a score is the weight times the number of keyword hits, in the
/// scorer's wrapping `i32` arithmetic: every hit counts the full weight.
pub proof fn lemma_keyword_score_is_weight_times_hits(kws: Seq<Seq<char>>, weight: i32, lower: Seq<char>)
    ensures
        keyword_tally(kws, weight, lower).0 == weight.wrapping_mul(keyword_tally(kws, weight, lower).1),
{
    let tally = keyword_tally(kws, weight, lower);
    lemma_tally_congruent(kws, weight, lower);
    lemma_wrapping_mul_congruent(weight, tally.1);
    let diff = tally.0 - weight.wrapping_mul(tally.1);
    assert((diff) % 0x1_0000_0000 == 0);
}

pub open spec fn any_contained(phrases: Seq<Seq<char>>, lower: Seq<char>) -> bool {
    exists|i: int| 0 <= i < phrases.len() && contains(lower, #[trigger] phrases[i])
}

/// Keyword score adjusted for the segment's duration `d`.
pub open spec fn duration_adjusted(c: ScoreConfig, score: i32, hits: i32, d: int) -> i32 {
    if c.preferred_min_duration_ms <= d && d <= c.preferred_max_duration_ms {
        score.wrapping_add(c.preferred_duration_bonus)
    } else if d > c.long_segment_threshold_ms {
        score.wrapping_sub(c.long_segment_penalty)
    } else if d < c.short_segment_threshold_ms && hits == 0 {
        score.wrapping_sub(c.short_segment_penalty)
    } else {
        score
    }
}

/// Ad score of a segment whose lowercased text is `lower` and whose duration is `d` ms.
pub open spec fn score_of(c: ScoreConfig, lower: Seq<char>, d: int) -> i32 {
    let tally = keyword_tally(views_of(c.keywords@), c.keyword_weight, lower);
    let s = duration_adjusted(c, tally.0, tally.1, d);
    if any_contained(views_of(c.outro_phrases@), lower) {
        s.wrapping_sub(c.outro_penalty)
    } else {
        s
    }
}

fn keyword_hits(lower: &Vec<char>, keyword: &String) -> (t: i32)
    ensures
        t == hits_for(lower@, keyword@),
{
    let mut padded = String::from_str(" ");
    padded.append(keyword.as_str());
    padded.append(" ");
    proof {
        reveal_strlit(" ");
    }
    let pattern = chars_of(padded.as_str());
    proof {
        assert(pattern@ =~= seq![' '] + keyword@ + seq![' ']);
    }
    let occurrences = count_matches(lower, &pattern) as i32;
    let kw = chars_of(keyword.as_str());
    let starts: i32 = if starts_with_exec(lower, &kw) {
        1
    } else {
        0
    };
    occurrences.wrapping_add(starts)
}

fn any_phrase(lower: &Vec<char>, phrases: &Vec<String>) -> (b: bool)
    ensures
        b == any_contained(views_of(phrases@), lower@),
{
    let ghost ps = views_of(phrases@);
    for i in 0..phrases.len()
        invariant
            ps == views_of(phrases@),
            forall|j: int| 0 <= j < i ==> !contains(lower@, #[trigger] ps[j]),
    {
        let p = chars_of(phrases[i].as_str());
        if contains_exec(lower, &p) {
            proof {
                assert(contains(lower@, ps[i as int]));
            }
            return true;
        }
    }
    false
}

/// Scores a segment's text and duration (in ms): keyword hits, a duration
/// bonus or penalty, and an outro penalty. The text is compared in lower case.
pub fn score_segment(config: &ScoreConfig, text: &str, duration_ms: i128) -> (score: i32)
    ensures
        score == score_of(*config, lowercase_of(text@), duration_ms as int),
{
    let lowered = to_lowercase(text);
    score_lowercased(config, lowered.as_str(), duration_ms)
}

/// Scores a segment whose text is already in lower case, with its duration in ms.
pub fn score_lowercased(config: &ScoreConfig, lowered: &str, duration_ms: i128) -> (score: i32)
    ensures
        score == score_of(*config, lowered@, duration_ms as int),
{
    let lower = chars_of(lowered);
    let ghost kws = views_of(config.keywords@);
    let mut score: i32 = 0;
    let mut hits: i32 = 0;
    let n = config.keywords.len();
    for i in 0..n
        invariant
            n == config.keywords@.len(),
            kws == views_of(config.keywords@),
            (score, hits) == keyword_tally(kws.take(i as int), config.keyword_weight, lower@),
    {
        let t = keyword_hits(&lower, &config.keywords[i]);
        hits = hits.wrapping_add(t);
        score = score.wrapping_add(t.wrapping_mul(config.keyword_weight));
        proof {
            assert(kws.take(i + 1).drop_last() =~= kws.take(i as int));
        }
    }
    proof {
        assert(kws.take(n as int) =~= kws);
    }
    if config.preferred_min_duration_ms as i128 <= duration_ms && duration_ms
        <= config.preferred_max_duration_ms as i128 {
        score = score.wrapping_add(config.preferred_duration_bonus);
    } else if duration_ms > config.long_segment_threshold_ms as i128 {
        score = score.wrapping_sub(config.long_segment_penalty);
    } else if duration_ms < config.short_segment_threshold_ms as i128 && hits == 0 {
        score = score.wrapping_sub(config.short_segment_penalty);
    }
    if any_phrase(&lower, &config.outro_phrases) {
        score = score.wrapping_sub(config.outro_penalty);
    }
    score
}

/// Turns segments into scored segments with the manual (keyword and duration) rules.
pub struct ManualClassifier {
    pub config: ScoreConfig,
}

/// The scored form of `seg`, given the ad score the scorer gave it.
pub open spec fn classified(seg: Segment, score: i32, threshold: i32) -> ProcessedSegment {
    ProcessedSegment {
        start_time: seg.start_time,
        end_time: seg.end_time,
        text: seg.text,
        ad_score: score,
        is_ad: score >= threshold,
    }
}

impl ManualClassifier {
    pub fn new(config: ScoreConfig) -> (c: ManualClassifier)
        ensures
            c.config == config,
    {
        ManualClassifier { config }
    }

    /// The score the classifier gives `seg`.
    pub open spec fn score_for(&self, seg: Segment) -> i32 {
        score_of(self.config, lowercase_of(seg.text@), seg.end_time - seg.start_time)
    }

    /// Scores a segment; it is an ad when its score reaches the threshold.
    pub fn classify(&self, segment: Segment) -> (p: ProcessedSegment)
        ensures
            p == classified(segment, self.score_for(segment), self.config.ad_threshold),
    {
        let duration: i128 = segment.end_time as i128 - segment.start_time as i128;
        let score = score_segment(&self.config, segment.text.as_str(), duration);
        ProcessedSegment {
            start_time: segment.start_time,
            end_time: segment.end_time,
            text: segment.text,
            ad_score: score,
            is_ad: score >= self.config.ad_threshold,
        }
    }
}

} // verus!
