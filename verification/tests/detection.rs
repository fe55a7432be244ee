use barber_api::chunking::{chunk_pieces, generate_chunks, TranscriptArrays, TranscriptEntry, TranscriptPiece};
use barber_api::detection::{DetectionConfig, DetectionCore};
use barber_api::error::AppError;
use barber_api::scoring::{count_matches, score_lowercased, score_segment, ManualClassifier, ScoreConfig};
use barber_api::segmenter::create_segments;
use barber_api::types::{Segment, TranscriptChunk};

fn chars(s: &str) -> Vec<char> {
    s.chars().collect()
}

#[test]
fn matches_are_counted_without_overlap() {
    assert_eq!(count_matches(&chars("aaaa"), &chars("aa")), 2);
    assert_eq!(count_matches(&chars("abcabc"), &chars("bc")), 2);
    assert_eq!(count_matches(&chars("abc"), &chars("abcd")), 0);
    assert_eq!(count_matches(&chars(" a  a "), &chars(" a ")), 2);
}

#[test]
fn keyword_hits_and_preferred_duration_make_an_ad() {
    let config = ScoreConfig::default();
    let text = "This episode is sponsored by Acme. Use code PODCAST for a discount.";
    // " sponsored " and " use code " hit; "discount." is not followed by a space.
    assert_eq!(score_segment(&config, text, 45_000), 2 * 15 + 15);
}

#[test]
fn short_outro_is_penalised_twice() {
    let config = ScoreConfig::default();
    assert_eq!(score_segment(&config, "Thanks for listening, see you next time", 10_000), -20 - 25);
}

#[test]
fn long_segment_penalty_and_leading_keyword() {
    let config = ScoreConfig::default();
    assert_eq!(score_segment(&config, "Visit our site", 200_000), 15 - 100);
    // Uppercase text is lowered before matching.
    assert_eq!(score_segment(&config, "SPONSOR message", 20_000), 15);
}

#[test]
fn short_segment_with_keyword_is_not_penalised() {
    let config = ScoreConfig::default();
    assert_eq!(score_segment(&config, "a promo code here", 5_000), 15 + 15);
}

#[test]
fn classify_marks_ads_by_threshold() {
    let classifier = ManualClassifier::new(ScoreConfig::default());
    let seg = Segment { start_time: 10_000, end_time: 70_000, text: "sponsored content".into() };
    let p = classifier.classify(seg);
    // Starts with both "sponsor" and "sponsored": two hits, plus the duration bonus.
    assert_eq!(p.ad_score, 15 + 15 + 15);
    assert!(p.is_ad);
    assert_eq!((p.start_time, p.end_time), (10_000, 70_000));
    assert_eq!(p.text, "sponsored content");
    let plain = classifier.classify(Segment { start_time: 0, end_time: 60_000, text: "just talk".into() });
    assert_eq!(plain.ad_score, 15);
    assert!(!plain.is_ad);
}

fn chunk(text: &str, start: u64, end: u64) -> TranscriptChunk {
    TranscriptChunk { text: text.into(), start_time: start, end_time: end }
}

#[test]
fn segments_cover_the_transcript_between_boundaries() {
    let chunks = vec![chunk("a", 0, 1000), chunk("b", 1000, 2000), chunk("c", 2000, 3000)];
    let segments = create_segments(&chunks, &[1500]);
    assert_eq!(segments.len(), 2);
    assert_eq!((segments[0].start_time, segments[0].end_time), (0, 1500));
    assert_eq!(segments[0].text, "a b");
    assert_eq!((segments[1].start_time, segments[1].end_time), (1500, 3000));
    assert_eq!(segments[1].text, "b c");
}

#[test]
fn no_chunks_gives_one_empty_segment() {
    let segments = create_segments(&[], &[]);
    assert_eq!(segments.len(), 1);
    assert_eq!((segments[0].start_time, segments[0].end_time), (0, 0));
    assert_eq!(segments[0].text, "");
}

fn entry(text: Option<&str>, start: Option<u64>, end: Option<u64>) -> TranscriptEntry {
    TranscriptEntry { text: text.map(str::to_string), start, end }
}

#[test]
fn chunks_close_on_long_enough_sentences() {
    let entries = Some(vec![
        entry(Some("Hello there."), Some(0), Some(2000)),
        entry(Some("This is a test."), Some(2000), Some(6000)),
        entry(Some("Next part"), Some(6000), Some(8000)),
        entry(Some(" goes on!"), Some(8000), Some(9000)),
    ]);
    let chunks = generate_chunks(&entries, 5000).unwrap();
    assert_eq!(chunks.len(), 2);
    assert_eq!(chunks[0].text, "Hello there. This is a test.");
    assert_eq!((chunks[0].start_time, chunks[0].end_time), (0, 6000));
    // Trimmed pieces are joined with exactly one space.
    assert_eq!(chunks[1].text, "Next part goes on!");
    assert_eq!((chunks[1].start_time, chunks[1].end_time), (6000, 9000));
}

#[test]
fn missing_times_fall_back_to_the_previous_end() {
    let entries = Some(vec![
        entry(Some("One."), Some(1000), Some(7000)),
        entry(Some("Two"), None, None),
        entry(None, None, Some(9000)),
    ]);
    let chunks = generate_chunks(&entries, 5000).unwrap();
    assert_eq!(chunks.len(), 2);
    assert_eq!((chunks[0].start_time, chunks[0].end_time), (1000, 7000));
    // A piece without text leaves a trailing space.
    assert_eq!(chunks[1].text, "Two ");
    assert_eq!((chunks[1].start_time, chunks[1].end_time), (7000, 9000));
}

#[test]
fn chunking_rejects_missing_or_short_transcripts() {
    match generate_chunks(&None, 5000) {
        Err(AppError::InternalServerError(m)) => {
            assert_eq!(m, "Transcript JSON does not contain a valid array of segments.")
        }
        _ => panic!("expected an error"),
    }
    match generate_chunks(&Some(vec![entry(Some("x"), Some(0), Some(1))]), 5000) {
        Err(AppError::InternalServerError(m)) => assert_eq!(
            m,
            "Transcript contains fewer than 2 segments; cannot create sliding windows."
        ),
        _ => panic!("expected an error"),
    }
}

#[test]
fn detection_scores_every_segment() {
    let config = DetectionConfig::default();
    assert_eq!(config.boundary_size, 5);
    let core = DetectionCore::new(config);
    let chunks = vec![
        chunk("welcome to the show", 0, 40_000),
        chunk("this hour is sponsored by acme use code show", 40_000, 100_000),
        chunk("back to the story", 100_000, 400_000),
    ];
    let found = core.detect_ads(&chunks, &[40_000, 100_000]);
    assert_eq!(found.len(), 3);
    assert_eq!((found[0].start_time, found[0].end_time, found[0].ad_score, found[0].is_ad), (0, 40_000, 15, false));
    assert_eq!(found[1].ad_score, 15 + 15 + 15);
    assert!(found[1].is_ad);
    assert_eq!((found[2].ad_score, found[2].is_ad), (-100, false));
}

#[test]
fn lowercased_text_is_scored_as_given() {
    let config = ScoreConfig::default();
    // Already lower case: " use code " hits and the text starts with "offer".
    assert_eq!(score_lowercased(&config, "offer: use code now", 60_000), 15 + 15 + 15);
    // Upper case letters are not lowered here, so nothing matches.
    assert_eq!(score_lowercased(&config, "OFFER: USE CODE NOW", 60_000), 15);
}

fn piece(trimmed: &str, ends_sentence: bool, start: Option<u64>, end: Option<u64>) -> TranscriptPiece {
    TranscriptPiece { trimmed: trimmed.into(), ends_sentence, start, end, leading_space: false }
}

#[test]
fn prepared_pieces_are_chunked_by_their_flags() {
    let pieces = vec![
        piece("a", true, Some(0), Some(1000)),
        piece("b", false, Some(1000), Some(6000)),
        piece("c", true, Some(6000), Some(7000)),
        piece("d", false, None, None),
    ];
    let chunks = chunk_pieces(&pieces, 5000);
    assert_eq!(chunks.len(), 2);
    // "a" ends a sentence but only 1 s in; "b" is long enough but does not end one.
    assert_eq!(chunks[0].text, "a b c");
    assert_eq!((chunks[0].start_time, chunks[0].end_time), (0, 7000));
    assert_eq!(chunks[1].text, "d");
    assert_eq!((chunks[1].start_time, chunks[1].end_time), (7000, 7000));
    assert!(chunk_pieces(&Vec::new(), 5000).is_empty());
}

#[test]
fn words_of_neighbouring_pieces_stay_apart() {
    let entries = Some(vec![
        entry(Some("Hi"), Some(0), Some(1000)),
        entry(Some(" there."), Some(1000), Some(6000)),
        entry(Some("  and  "), Some(6000), Some(6500)),
        entry(Some("bye\n"), Some(6500), Some(7000)),
    ]);
    let chunks = generate_chunks(&entries, 5000).unwrap();
    assert_eq!(chunks.len(), 2);
    assert_eq!(chunks[0].text, "Hi there.");
    assert_eq!((chunks[0].start_time, chunks[0].end_time), (0, 6000));
    assert_eq!(chunks[1].text, "and bye");
}

#[test]
fn transcript_arrays_are_picked_in_order() {
    let one = || Some(vec![entry(Some("x"), Some(0), Some(1))]);
    let two = || Some(vec![entry(Some("a"), None, None), entry(Some("b"), None, None)]);
    let picked = TranscriptArrays { root: None, segments: None, words: two(), results: one() }.select();
    assert_eq!(picked.unwrap().len(), 2);
    let picked = TranscriptArrays { root: one(), segments: two(), words: two(), results: two() }.select();
    assert_eq!(picked.unwrap().len(), 1);
    assert!(TranscriptArrays { root: None, segments: None, words: None, results: None }.select().is_none());
}

#[test]
fn blank_pieces_leave_one_space() {
    let entries = Some(vec![
        entry(Some("One"), Some(0), Some(1000)),
        entry(Some("\t"), Some(1000), Some(2000)),
        entry(Some(""), Some(2000), Some(3000)),
        entry(Some("two"), Some(3000), Some(4000)),
        entry(Some(" "), Some(4000), Some(4500)),
        entry(Some("three"), Some(4500), Some(4800)),
    ]);
    let chunks = generate_chunks(&entries, 5000).unwrap();
    assert_eq!(chunks.len(), 1);
    // The tab leaves a space; the empty piece adds none after it; a blank piece that
    // begins with a space adds nothing, and "three" then gets its own separator.
    assert_eq!(chunks[0].text, "One two three");
}
