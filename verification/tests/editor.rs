use barber_api::editor::{EditorCore, EditorJob, EditorResult};
use barber_api::error::AppError;
use barber_api::types::ProcessedSegment;

/// Milliseconds of a time given in seconds.
fn ms(seconds: f64) -> u64 {
    (seconds * 1000.0).round() as u64
}

fn segment(start: f64, end: f64, ad_score: i32, is_ad: bool) -> ProcessedSegment {
    ProcessedSegment {
        start_time: ms(start),
        end_time: ms(end),
        text: "".into(),
        ad_score,
        is_ad,
    }
}

#[test]
fn test_calculate_keep_blocks() {
    // Ads and non-ads mixed up, out of chronological order
    let segments = vec![
        segment(20.0, 30.0, 0, false),
        segment(10.0, 20.0, 100, true),
        segment(0.0, 10.0, 0, false),
        segment(30.0, 40.0, 0, false),
    ];

    let keep_blocks = EditorCore::calculate_keep_blocks(&segments);

    assert_eq!(keep_blocks.len(), 2);
    assert_eq!(keep_blocks[0], (ms(0.0), ms(10.0)));
    assert_eq!(keep_blocks[1], (ms(20.0), ms(40.0)));
}

#[test]
fn test_calculate_keep_blocks_all_ads() {
    let segments = vec![segment(0.0, 10.0, 100, true)];
    let keep_blocks = EditorCore::calculate_keep_blocks(&segments);
    assert!(keep_blocks.is_empty());
}

#[test]
fn keep_blocks_of_nothing_is_empty() {
    assert!(EditorCore::calculate_keep_blocks(&[]).is_empty());
}

#[test]
fn keep_blocks_split_at_every_ad() {
    let segments = vec![
        segment(0.0, 5.0, 0, false),
        segment(5.0, 6.0, 90, true),
        segment(6.0, 7.5, 0, false),
        segment(7.5, 9.0, 0, false),
        segment(9.0, 12.0, 80, true),
        segment(12.0, 13.25, 0, false),
    ];
    let blocks = EditorCore::calculate_keep_blocks(&segments);
    assert_eq!(blocks, vec![(0, 5000), (6000, 9000), (12000, 13250)]);
}

#[test]
fn keep_blocks_keep_input_order_for_equal_starts() {
    let segments = vec![
        segment(0.0, 4.0, 0, false),
        segment(0.0, 2.0, 90, true),
        segment(4.0, 8.0, 0, false),
    ];
    // Stable sort: the non-ad segment starting at 0 comes first, then the ad.
    let blocks = EditorCore::calculate_keep_blocks(&segments);
    assert_eq!(blocks, vec![(0, 4000), (4000, 8000)]);
}

#[test]
fn plan_writes_concat_list_with_beeps_between_blocks() {
    let segments = vec![
        segment(0.0, 10.0, 0, false),
        segment(10.0, 20.5, 100, true),
        segment(20.5, 30.125, 0, false),
    ];
    let plan = EditorCore::plan_ad_removal("/data/it's.mp3", "/assets/boop.mp3", &segments).unwrap();
    let expected = "file '/data/it'\\''s.mp3'\n\
                    inpoint 0.000\n\
                    outpoint 10.000\n\
                    file '/assets/boop.mp3'\n\
                    file '/data/it'\\''s.mp3'\n\
                    inpoint 20.500\n\
                    outpoint 30.125\n";
    assert_eq!(plan, expected);
}

#[test]
fn plan_refuses_when_everything_is_an_ad() {
    let segments = vec![segment(0.0, 10.0, 100, true), segment(10.0, 20.0, 100, true)];
    match EditorCore::plan_ad_removal("/a.mp3", "/b.mp3", &segments) {
        Err(AppError::InternalServerError(m)) => assert_eq!(m, "Entire file marked as ads"),
        _ => panic!("expected an internal error"),
    }
}

#[test]
fn editor_result_reports_outcome_and_episode() {
    let job = EditorJob { episode_id: 7, episode_path: "/x.mp3".into(), segments: vec![] };
    let ok = EditorResult::for_job(&job, Ok("/x_clean.mp3".into()));
    assert!(ok.is_success());
    assert!(!ok.is_failure());
    assert_eq!(ok.episode_id(), 7);
    let failed = EditorResult::for_job(&job, Err(AppError::NotFound));
    assert!(failed.is_failure());
    assert!(!failed.is_success());
    assert_eq!(failed.episode_id(), 7);
}

#[test]
fn editor_core_keeps_base_dir() {
    assert_eq!(EditorCore::new("/srv/data".into()).base_dir, "/srv/data");
}

#[test]
fn keep_blocks_come_in_chronological_order() {
    let segments = vec![
        segment(50.0, 60.0, 0, false),
        segment(30.0, 40.0, 0, false),
        segment(40.0, 50.0, 90, true),
        segment(10.0, 20.0, 0, false),
        segment(20.0, 30.0, 90, true),
    ];
    let blocks = EditorCore::calculate_keep_blocks(&segments);
    assert_eq!(blocks, vec![(10000, 20000), (30000, 40000), (50000, 60000)]);
    assert!(blocks.windows(2).all(|w| w[0].0 <= w[1].0));
}

#[test]
fn keep_blocks_do_not_depend_on_input_order() {
    let segments = vec![
        segment(0.0, 10.0, 0, false),
        segment(10.0, 20.0, 100, true),
        segment(20.0, 30.0, 0, false),
        segment(30.0, 40.0, 0, false),
    ];
    let expected = EditorCore::calculate_keep_blocks(&segments);
    let orders = [[3, 2, 1, 0], [1, 3, 0, 2], [2, 0, 3, 1]];
    for order in orders {
        let p: Vec<ProcessedSegment> = order.iter().map(|&i| segments[i].clone()).collect();
        assert_eq!(EditorCore::calculate_keep_blocks(&p), expected);
    }
    assert_eq!(expected, vec![(0, 10000), (20000, 40000)]);
}
